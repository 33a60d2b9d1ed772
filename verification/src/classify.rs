//! Decides whether a filesystem entry counts as a supported image, going by
//! its extension alone. The comparison is case-insensitive over ASCII, which
//! coincides with full Unicode case folding on every string that could match
//! one of the supported extensions (they are all ASCII).
use vstd::prelude::*;
use vstd::string::StrSliceExecFns;

verus! {

/// Code point of `c` with an ASCII upper-case letter folded to lower case.
pub open spec fn fold_code(c: char) -> int {
    if 65 <= c as int && c as int <= 90 {
        c as int + 32
    } else {
        c as int
    }
}

/// The string's code points, each folded to ASCII lower case.
pub open spec fn folded(s: Seq<char>) -> Seq<int> {
    s.map_values(|c: char| fold_code(c))
}

/// The string's code points, as they stand.
pub open spec fn code_points(s: Seq<char>) -> Seq<int> {
    s.map_values(|c: char| c as int)
}

/// Whether `s`, lower-cased, is one of the supported image extensions:
/// jpg, jpeg, png, bmp, gif, webp, tiff, tif.
pub open spec fn is_supported_ext(s: Seq<char>) -> bool {
    ||| folded(s) == folded("jpg"@)
    ||| folded(s) == folded("jpeg"@)
    ||| folded(s) == folded("png"@)
    ||| folded(s) == folded("bmp"@)
    ||| folded(s) == folded("gif"@)
    ||| folded(s) == folded("webp"@)
    ||| folded(s) == folded("tiff"@)
    ||| folded(s) == folded("tif"@)
}

/// Case-folded code point of `c`, as executable code.
fn fold_char(c: char) -> (r: u32)
    ensures
        r == fold_code(c),
{
    let u = c as u32;
    if 65 <= u && u <= 90 {
        u + 32
    } else {
        u
    }
}

/// Whether `a` and `b` are equal up to ASCII case.
pub(crate) fn eq_ignore_case(a: &str, b: &str) -> (r: bool)
    ensures
        r == (folded(a@) == folded(b@)),
{
    let a_len = a.unicode_len();
    let b_len = b.unicode_len();
    if a_len != b_len {
        assert(folded(a@).len() != folded(b@).len());
        return false;
    }
    let mut i: usize = 0;
    while i < a_len
        invariant
            a_len == a@.len(),
            b_len == b@.len(),
            a_len == b_len,
            i <= a_len,
            forall|k: int| 0 <= k < i ==> folded(a@)[k] == folded(b@)[k],
        decreases a_len - i,
    {
        let ca = a.get_char(i);
        let cb = b.get_char(i);
        if fold_char(ca) != fold_char(cb) {
            assert(folded(a@)[i as int] != folded(b@)[i as int]);
            return false;
        }
        i += 1;
    }
    assert(folded(a@) =~= folded(b@));
    true
}

/// The lower-cased form of a supported extension, or `None` where the
/// extension is not supported. The result is the exact lower-casing of the
/// input: its code points are the input's folded code points.
pub fn normalize_ext(extension: &str) -> (r: Option<String>)
    ensures
        r is Some <==> is_supported_ext(extension@),
        r matches Some(s) ==> code_points(s@) == folded(extension@) && is_supported_ext(s@),
{
    if eq_ignore_case(extension, "jpg") {
        proof {
            reveal_strlit("jpg");
            assert(code_points("jpg"@) =~= folded("jpg"@));
        }
        Some("jpg".to_owned())
    } else if eq_ignore_case(extension, "jpeg") {
        proof {
            reveal_strlit("jpeg");
            assert(code_points("jpeg"@) =~= folded("jpeg"@));
        }
        Some("jpeg".to_owned())
    } else if eq_ignore_case(extension, "png") {
        proof {
            reveal_strlit("png");
            assert(code_points("png"@) =~= folded("png"@));
        }
        Some("png".to_owned())
    } else if eq_ignore_case(extension, "bmp") {
        proof {
            reveal_strlit("bmp");
            assert(code_points("bmp"@) =~= folded("bmp"@));
        }
        Some("bmp".to_owned())
    } else if eq_ignore_case(extension, "gif") {
        proof {
            reveal_strlit("gif");
            assert(code_points("gif"@) =~= folded("gif"@));
        }
        Some("gif".to_owned())
    } else if eq_ignore_case(extension, "webp") {
        proof {
            reveal_strlit("webp");
            assert(code_points("webp"@) =~= folded("webp"@));
        }
        Some("webp".to_owned())
    } else if eq_ignore_case(extension, "tiff") {
        proof {
            reveal_strlit("tiff");
            assert(code_points("tiff"@) =~= folded("tiff"@));
        }
        Some("tiff".to_owned())
    } else if eq_ignore_case(extension, "tif") {
        proof {
            reveal_strlit("tif");
            assert(code_points("tif"@) =~= folded("tif"@));
        }
        Some("tif".to_owned())
    } else {
        None
    }
}

/// Whether `extension` names a supported image format, regardless of case.
pub fn is_supported_image(extension: &str) -> (r: bool)
    ensures
        r == is_supported_ext(extension@),
{
    eq_ignore_case(extension, "jpg") || eq_ignore_case(extension, "jpeg")
        || eq_ignore_case(extension, "png") || eq_ignore_case(extension, "bmp")
        || eq_ignore_case(extension, "gif") || eq_ignore_case(extension, "webp")
        || eq_ignore_case(extension, "tiff") || eq_ignore_case(extension, "tif")
}

} // verus!
