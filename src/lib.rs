//! State and control engine of a terminal process monitor: the sort/filter pipeline,
//! rolling usage history, the refresh schedule and the input state machine; plus
//! the line-ending conversion and gzip naming rules of two small companion tools.

pub mod gzpath;
pub mod history;
pub mod lineconv;
pub mod monitor;
pub mod pipeline;
pub mod record;
pub mod schedule;
pub mod text;
