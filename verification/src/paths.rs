//! Decisions about input and output files.
//!
//! The caller looks at the file system and hands over what it found; the
//! functions here decide what follows from it.

use vstd::prelude::*;
use vstd::string::{StrSliceExecFns, StringExecFns};

verus! {

/// The lower-case form of an ASCII letter; any other character itself.
pub open spec fn ascii_lower(c: char) -> char {
    if 'A' <= c <= 'Z' {
        ((c as u8) + 32) as char
    } else {
        c
    }
}

/// `s` with every ASCII letter in lower case.
pub open spec fn ascii_lowercase(s: Seq<char>) -> Seq<char> {
    s.map_values(|c: char| ascii_lower(c))
}

/// `ext` is the extension of an image file that can be converted: `tif`
/// or `tiff`, in any mix of upper and lower case.
pub open spec fn is_tiff_ext(ext: Seq<char>) -> bool {
    ascii_lowercase(ext) == "tif"@ || ascii_lowercase(ext) == "tiff"@
}

/// Tells whether `c` is the lower-case letter `lower` or its upper-case
/// form.
fn is_letter(c: char, lower: char, upper: char) -> (r: bool)
    requires
        'a' <= lower <= 'z',
        upper as u8 + 32 == lower as u8,
        'A' <= upper <= 'Z',
    ensures
        r == (ascii_lower(c) == lower),
{
    c == lower || c == upper
}

/// Tells whether a file with the extension `ext` is taken as input.
pub fn is_tiff(ext: &str) -> (r: bool)
    ensures
        r == is_tiff_ext(ext@),
{
    proof {
        reveal_strlit("tif");
        reveal_strlit("tiff");
    }
    let n: usize = ext.unicode_len();
    let ghost low = ascii_lowercase(ext@);
    if n != 3 && n != 4 {
        assert(low.len() == n);
        return false;
    }
    let stem: bool = is_letter(ext.get_char(0), 't', 'T') && is_letter(ext.get_char(1), 'i', 'I')
        && is_letter(ext.get_char(2), 'f', 'F');
    proof {
        assert(low[0] == ascii_lower(ext@[0]));
        assert(low[1] == ascii_lower(ext@[1]));
        assert(low[2] == ascii_lower(ext@[2]));
    }
    if n == 3 {
        proof {
            if stem {
                assert(low =~= "tif"@);
            }
        }
        stem
    } else {
        let last: bool = is_letter(ext.get_char(3), 'f', 'F');
        proof {
            assert(low[3] == ascii_lower(ext@[3]));
            if stem && last {
                assert(low =~= "tiff"@);
            }
        }
        stem && last
    }
}

/// Where the output of one input goes.
#[derive(Debug, Clone, Copy, PartialEq, Eq)]
pub enum OutputPlacement {
    /// Into the output directory, named after the input.
    InDirectory,
    /// To the output path as it was given.
    AsGiven,
    /// Beside the input, with the extension replaced.
    BesideInput,
}

/// Whether the output argument names a directory: it is one, or it does
/// not exist yet and the input is a directory.
pub open spec fn names_directory(out_is_dir: bool, out_exists: bool, input_is_dir: bool) -> bool {
    out_is_dir || (!out_exists && input_is_dir)
}

/// Tells whether the output argument names a directory.
pub fn output_is_directory(out_is_dir: bool, out_exists: bool, input_is_dir: bool) -> (r: bool)
    ensures
        r == names_directory(out_is_dir, out_exists, input_is_dir),
{
    out_is_dir || (!out_exists && input_is_dir)
}

/// Decides where the output of one input goes.
pub fn derive_output_placement(
    has_output: bool,
    out_is_dir: bool,
    out_exists: bool,
    input_is_dir: bool,
) -> (p: OutputPlacement)
    ensures
        p == if !has_output {
            OutputPlacement::BesideInput
        } else if names_directory(out_is_dir, out_exists, input_is_dir) {
            OutputPlacement::InDirectory
        } else {
            OutputPlacement::AsGiven
        },
{
    if !has_output {
        OutputPlacement::BesideInput
    } else if output_is_directory(out_is_dir, out_exists, input_is_dir) {
        OutputPlacement::InDirectory
    } else {
        OutputPlacement::AsGiven
    }
}

/// The name of the output file inside an output directory: the stem of
/// the input, or the word `output` where the input has none, and the
/// extension `.jp2`.
pub open spec fn output_name(stem: Option<Seq<char>>) -> Seq<char> {
    match stem {
        Some(s) => s + ".jp2"@,
        None => "output"@ + ".jp2"@,
    }
}

/// Names the output file inside an output directory.
pub fn output_file_name(stem: Option<&str>) -> (name: String)
    ensures
        name@ == output_name(
            match stem {
                Some(s) => Some(s@),
                None => None,
            },
        ),
{
    let mut name = match stem {
        Some(s) => String::from_str(s),
        None => String::from_str("output"),
    };
    name.append(".jp2");
    name
}

/// `path` with every backslash replaced by a slash.
pub open spec fn normalized(path: Seq<char>) -> Seq<char> {
    path.map_values(|c: char| if c == '\\' {
        '/'
    } else {
        c
    })
}

/// Replaces every backslash of a path by a slash.
pub fn normalize_separators(path: &str) -> (out: String)
    ensures
        out@ == normalized(path@),
{
    let n: usize = path.unicode_len();
    let mut out = String::new();
    let mut i: usize = 0;
    while i < n
        invariant
            n == path@.len(),
            i <= n,
            out@ == normalized(path@).subrange(0, i as int),
        decreases n - i,
    {
        let c: char = path.get_char(i);
        let ghost before = out@;
        if c == '\\' {
            out.push('/');
        } else {
            out.push(c);
        }
        assert(out@ =~= normalized(path@).subrange(0, i + 1));
        i += 1;
    }
    assert(normalized(path@).subrange(0, n as int) =~= normalized(path@));
    out
}

/// Whether an input is passed over: its output exists and overwriting
/// was not asked for.
pub fn should_skip(output_exists: bool, force: bool) -> (skip: bool)
    ensures
        skip == (output_exists && !force),
{
    output_exists && !force
}

} // verus!
