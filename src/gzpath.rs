//! Compression level and default output names of the gzip tool.
use vstd::prelude::*;
use vstd::string::*;

verus! {

/// Highest compression level accepted by the encoder.
pub const MAX_LEVEL: u32 = 9;

/// Lowest compression level accepted by the encoder.
pub const MIN_LEVEL: u32 = 0;

/// Clamps a requested compression level into `MIN_LEVEL..=MAX_LEVEL`.
pub fn sanitize_level(level: u32) -> (r: u32)
    ensures
        r == if level > MAX_LEVEL { MAX_LEVEL } else { level },
{
    if level > MAX_LEVEL {
        MAX_LEVEL
    } else {
        level
    }
}

/// The last component of a path, when there is one and it is valid text, as
/// `Path::file_name` gives it.
pub uninterp spec fn path_file_name(p: Seq<char>) -> Option<Seq<char>>;

/// The path with its last component replaced, as `Path::with_file_name` gives it.
pub uninterp spec fn path_with_file_name(p: Seq<char>, name: Seq<char>) -> Seq<char>;

/// Whether two paths have the same components, as `Path`'s `==` decides it.
pub uninterp spec fn path_eq(a: Seq<char>, b: Seq<char>) -> bool;

/// Relies on `Path::file_name` (then `OsStr::to_str`): the last component of the path.
#[verifier::external_body]
fn file_name_of(p: &str) -> (r: Option<String>)
    ensures
        match r {
            Some(s) => path_file_name(p@) == Some(s@),
            None => path_file_name(p@) == None::<Seq<char>>,
        },
{
    std::path::Path::new(p).file_name().and_then(|n| n.to_str()).map(|n| n.to_string())
}

/// Relies on `Path::with_file_name`: the path with its last component replaced.
#[verifier::external_body]
fn with_file_name(p: &str, name: &str) -> (r: String)
    ensures
        r@ == path_with_file_name(p@, name@),
{
    std::path::Path::new(p).with_file_name(name).to_string_lossy().into_owned()
}

/// Relies on `PartialEq` for `Path`: equality of the paths' components.
#[verifier::external_body]
fn paths_equal(a: &str, b: &str) -> (r: bool)
    ensures
        r == path_eq(a@, b@),
{
    std::path::Path::new(a) == std::path::Path::new(b)
}

/// The extension of compressed files.
pub open spec fn gz_suffix() -> Seq<char> {
    seq!['.', 'g', 'z']
}

/// The extension given to decompressed files that lacked `gz_suffix`.
pub open spec fn out_suffix() -> Seq<char> {
    seq!['.', 'o', 'u', 't']
}

/// A file name as text, when there is one.
pub open spec fn name_view(n: Option<String>) -> Option<Seq<char>> {
    match n {
        Some(s) => Some(s@),
        None => None,
    }
}

/// The name of the compressed file: the input's file name, or the whole input
/// when it has none, followed by `gz_suffix`.
pub open spec fn compressed_name(file_name: Option<Seq<char>>, input: Seq<char>) -> Seq<char> {
    match file_name {
        Some(s) => s + gz_suffix(),
        None => input + gz_suffix(),
    }
}

/// `s` ends with `gz_suffix`.
pub open spec fn ends_with_gz(s: Seq<char>) -> bool {
    s.len() >= 3 && s.subrange(s.len() - 3, s.len() as int) == gz_suffix()
}

/// The name of the decompressed file: the input's file name without `gz_suffix`, or
/// followed by `out_suffix` when it has no such ending; the whole input followed by
/// `out_suffix` when it has no file name.
pub open spec fn decompressed_name(file_name: Option<Seq<char>>, input: Seq<char>) -> Seq<char> {
    match file_name {
        Some(s) => if ends_with_gz(s) {
            s.subrange(0, s.len() - 3)
        } else {
            s + out_suffix()
        },
        None => input + out_suffix(),
    }
}

/// Builds the compressed file's name from the input's file name, if it has one.
pub fn compressed_file_name(file_name: &Option<String>, input: &str) -> (r: String)
    ensures
        r@ == compressed_name(name_view(*file_name), input@),
{
    proof {
        reveal_strlit(".gz");
    }
    let base = match file_name {
        Some(s) => s.clone(),
        None => input.to_owned(),
    };
    base.concat(".gz")
}

/// Builds the decompressed file's name from the input's file name, if it has one.
pub fn decompressed_file_name(file_name: &Option<String>, input: &str) -> (r: String)
    ensures
        r@ == decompressed_name(name_view(*file_name), input@),
{
    proof {
        reveal_strlit(".out");
    }
    match file_name {
        Some(s) => {
            let t = s.as_str();
            let n = t.unicode_len();
            if n >= 3 && t.get_char(n - 3) == '.' && t.get_char(n - 2) == 'g' && t.get_char(n - 1)
                == 'z' {
                assert(t@.subrange(n - 3, n as int) =~= gz_suffix());
                t.substring_char(0, n - 3).to_owned()
            } else {
                assert(!ends_with_gz(t@)) by {
                    if ends_with_gz(t@) {
                        let tail = t@.subrange(n - 3, n as int);
                        assert(tail[0] == '.' && tail[1] == 'g' && tail[2] == 'z');
                    }
                }
                s.clone().concat(".out")
            }
        },
        None => input.to_owned().concat(".out"),
    }
}

/// The default output path when compressing `input`: `gz_suffix` appended to its
/// file name.
pub fn default_output_for_compress(input: &str) -> (r: String)
    ensures
        r@ == path_with_file_name(input@, compressed_name(path_file_name(input@), input@)),
{
    let name = file_name_of(input);
    let new_name = compressed_file_name(&name, input);
    with_file_name(input, new_name.as_str())
}

/// The default output path when decompressing `input`: `gz_suffix` removed from its
/// file name, or `out_suffix` appended.
pub fn default_output_for_decompress(input: &str) -> (r: String)
    ensures
        r@ == path_with_file_name(input@, decompressed_name(path_file_name(input@), input@)),
{
    let name = file_name_of(input);
    let new_name = decompressed_file_name(&name, input);
    with_file_name(input, new_name.as_str())
}

/// Whether two paths name the same place by their components.
pub fn same_path(a: &str, b: &str) -> (r: bool)
    ensures
        r == path_eq(a@, b@),
{
    paths_equal(a, b)
}

/// The output path of a run on the file `input`: the one given, or else the default
/// for the direction of the run.
pub fn output_path_for(input: &str, output: &Option<String>, decompress: bool) -> (r: String)
    ensures
        r@ == match output {
            Some(o) => o@,
            None => if decompress {
                path_with_file_name(input@, decompressed_name(path_file_name(input@), input@))
            } else {
                path_with_file_name(input@, compressed_name(path_file_name(input@), input@))
            },
        },
{
    match output {
        Some(o) => o.clone(),
        None => if decompress {
            default_output_for_decompress(input)
        } else {
            default_output_for_compress(input)
        },
    }
}

} // verus!
