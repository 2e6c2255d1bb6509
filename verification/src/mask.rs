//! Decisions of the batch masking tool: which files are images, which
//! failures are worth a retry on the CPU, and how mask files are named.
use vstd::prelude::*;
use crate::text::{
    append_zero_padded, chars_equal, chars_of, contains_chars, contains_text, digits_value,
    lemma_lower_idempotent, lemma_zero_padded_digits, lemma_zero_padded_value, lower, lower_chars, occurs_at, zero_padded,
};

verus! {

/// A failure report (already ASCII lower-cased) names a CUDA runtime problem.
pub open spec fn names_cuda_failure(lowered: Seq<char>) -> bool {
    ||| contains_text(lowered, "drivererror("@)
    ||| contains_text(lowered, "cuda_error_"@)
    ||| contains_text(lowered, "cuda "@)
    ||| contains_text(lowered, "cuda_error_operating_system"@)
    ||| contains_text(lowered, "cuda_error_unsupported_ptx_version"@)
    ||| contains_text(lowered, "unsupported ptx"@)
    ||| contains_text(lowered, "unsupported toolchain"@)
}

/// A failure report describes a CUDA runtime error, ignoring ASCII case.
pub open spec fn is_cuda_report(report: Seq<char>) -> bool {
    names_cuda_failure(lower(report))
}

/// Detects CUDA errors that can be recovered by retrying on CPU.
///
/// `report` is the full (alternate-form) report of the failure, causes included.
pub fn is_cuda_runtime_error(report: &str) -> (r: bool)
    ensures
        r == is_cuda_report(report@),
        r <==> {
            let s = lower(report@);
            ||| contains_text(s, "drivererror("@)
            ||| contains_text(s, "cuda_error_"@)
            ||| contains_text(s, "cuda "@)
            ||| contains_text(s, "unsupported ptx"@)
            ||| contains_text(s, "unsupported toolchain"@)
        },
{
    let s = lower_chars(&chars_of(report));
    let r = contains_chars(&s, &chars_of("drivererror(")) || contains_chars(&s, &chars_of("cuda_error_"))
        || contains_chars(&s, &chars_of("cuda ")) || contains_chars(
        &s,
        &chars_of("cuda_error_operating_system"),
    ) || contains_chars(&s, &chars_of("cuda_error_unsupported_ptx_version")) || contains_chars(
        &s,
        &chars_of("unsupported ptx"),
    ) || contains_chars(&s, &chars_of("unsupported toolchain"))
    ;
    proof {
        lemma_cuda_report_patterns(report@);
    }
    r
}

/// After a failed masking run, whether to run it again on the CPU: only when the
/// CPU was not already forced and the failure is a CUDA runtime error.
pub fn should_retry_on_cpu(force_cpu: bool, report: &str) -> (r: bool)
    ensures
        r == (!force_cpu && is_cuda_report(report@)),
        r <==> !force_cpu && {
            let s = lower(report@);
            ||| contains_text(s, "drivererror("@)
            ||| contains_text(s, "cuda_error_"@)
            ||| contains_text(s, "cuda "@)
            ||| contains_text(s, "unsupported ptx"@)
            ||| contains_text(s, "unsupported toolchain"@)
        },
{
    !force_cpu && is_cuda_runtime_error(report)
}

/// Where `short` begins `long`, every occurrence of `long` is one of `short`.
proof fn lemma_prefix_occurs(hay: Seq<char>, long: Seq<char>, short: Seq<char>, i: int)
    requires
        short.len() <= long.len(),
        short =~= long.subrange(0, short.len() as int),
        occurs_at(hay, long, i),
    ensures
        occurs_at(hay, short, i),
{
    assert(hay.subrange(i, i + short.len()) =~= hay.subrange(i, i + long.len()).subrange(0, short.len() as int));
}

/// A failure report is a CUDA runtime error exactly when, once ASCII lower-cased, it
/// holds `drivererror(`, `cuda_error_`, `cuda ` (with its space), `unsupported ptx` or
/// `unsupported toolchain`.
pub proof fn lemma_cuda_report_patterns(report: Seq<char>)
    ensures
        is_cuda_report(report) <==> {
            let s = lower(report);
            ||| contains_text(s, "drivererror("@)
            ||| contains_text(s, "cuda_error_"@)
            ||| contains_text(s, "cuda "@)
            ||| contains_text(s, "unsupported ptx"@)
            ||| contains_text(s, "unsupported toolchain"@)
        },
{
    let s = lower(report);
    reveal_strlit("cuda_error_");
    reveal_strlit("cuda_error_operating_system");
    reveal_strlit("cuda_error_unsupported_ptx_version");
    if contains_text(s, "cuda_error_operating_system"@) {
        let i = choose|i: int| occurs_at(s, "cuda_error_operating_system"@, i);
        lemma_prefix_occurs(s, "cuda_error_operating_system"@, "cuda_error_"@, i);
    }
    if contains_text(s, "cuda_error_unsupported_ptx_version"@) {
        let i = choose|i: int| occurs_at(s, "cuda_error_unsupported_ptx_version"@, i);
        lemma_prefix_occurs(s, "cuda_error_unsupported_ptx_version"@, "cuda_error_"@, i);
    }
}

/// Two reports that differ only in ASCII letter case are both CUDA runtime errors or
/// both not; in particular lower-casing a report does not change the answer.
pub proof fn lemma_cuda_report_ignores_case(a: Seq<char>, b: Seq<char>)
    requires
        lower(a) == lower(b),
    ensures
        is_cuda_report(a) == is_cuda_report(b),
        is_cuda_report(lower(a)) == is_cuda_report(a),
{
    lemma_lower_idempotent(a);
}

/// An (already lower-cased) file extension that the batch tool accepts.
pub open spec fn is_image_extension(lowered: Seq<char>) -> bool {
    ||| lowered == "png"@
    ||| lowered == "jpg"@
    ||| lowered == "jpeg"@
    ||| lowered == "bmp"@
    ||| lowered == "webp"@
}

/// Whether a file extension (without its dot) is one of the accepted image
/// extensions, ignoring ASCII case.
pub fn is_supported_extension(ext: &str) -> (r: bool)
    ensures
        r == accepts_extension(ext@),
        r <==> {
            let e = lower(ext@);
            ||| e == "png"@
            ||| e == "jpg"@
            ||| e == "jpeg"@
            ||| e == "bmp"@
            ||| e == "webp"@
        },
{
    let e = lower_chars(&chars_of(ext));
    chars_equal(&e, &chars_of("png")) || chars_equal(&e, &chars_of("jpg")) || chars_equal(
        &e,
        &chars_of("jpeg"),
    ) || chars_equal(&e, &chars_of("bmp")) || chars_equal(&e, &chars_of("webp"))
}

/// An extension (without its dot) that the batch tool accepts, in any ASCII case.
pub open spec fn accepts_extension(ext: Seq<char>) -> bool {
    is_image_extension(lower(ext))
}

/// Two extensions that differ only in ASCII letter case are both accepted or both
/// refused; in particular lower-casing an extension does not change the answer.
pub proof fn lemma_extension_ignores_case(a: Seq<char>, b: Seq<char>)
    requires
        lower(a) == lower(b),
    ensures
        accepts_extension(a) == accepts_extension(b),
        accepts_extension(lower(a)) == accepts_extension(a),
{
    lemma_lower_idempotent(a);
}

/// The accepted image extensions are exactly `png`, `jpg`, `jpeg`, `bmp` and `webp`, in
/// any ASCII case: every other extension (`json`, `txt`, `gif`, ...) is refused.
pub proof fn lemma_accepted_extensions(ext: Seq<char>)
    ensures
        accepts_extension(ext) <==> {
            let e = lower(ext);
            ||| e == "png"@
            ||| e == "jpg"@
            ||| e == "jpeg"@
            ||| e == "bmp"@
            ||| e == "webp"@
        },
{
}

/// A bare file name: non-empty, neither `.` nor `..`, and free of the characters that
/// some platform reads as a separator (`/`, backslash).
pub open spec fn is_bare_file_name(path: Seq<char>) -> bool {
    &&& path.len() > 0
    &&& path != "."@
    &&& path != ".."@
    &&& !path.contains('/')
    &&& !path.contains('\\')
}

/// The extension of a bare file name as `Path::extension` documents it: the part after
/// the final `.`, where that `.` is not the name's first character.
pub open spec fn is_extension_at(name: Seq<char>, i: int) -> bool {
    &&& 0 < i < name.len()
    &&& name[i] == '.'
    &&& forall|j: int| i < j < name.len() ==> name[j] != '.'
}

/// `k` is where the last `/`-separated segment of `path` starts.
pub open spec fn is_final_segment_start(path: Seq<char>, k: int) -> bool {
    &&& 0 <= k <= path.len()
    &&& (k == 0 || path[k - 1] == '/')
    &&& forall|j: int| k <= j < path.len() ==> path[j] != '/'
}

/// A path whose file name every platform reads alike: it holds no backslash, has no
/// `:` as its second character (where it would make a drive prefix), does not begin
/// with `//`, and its last `/`-separated segment (starting at `k`) is a bare file name,
/// which is then its file name.
pub open spec fn has_plain_file_name(path: Seq<char>, k: int) -> bool {
    &&& is_final_segment_start(path, k)
    &&& !path.contains('\\')
    &&& !(path.len() >= 2 && path[1] == ':')
    &&& !(path.len() >= 2 && path[0] == '/' && path[1] == '/')
    &&& is_bare_file_name(path.subrange(k, path.len() as int))
}

/// The extension of a path, as `std::path::Path::extension` finds it, as text.
///
/// Claimed of the result: an extension holds no `'.'`, and preceded by a `'.'` it occurs
/// in the path. For a path with a plain file name (see [`has_plain_file_name`]), the
/// extension is the part of the file name after its final `'.'` unless that `'.'` is
/// the name's first character, and there is none when the name has no `'.'` past its
/// first character (as the documentation of `Path::extension` states). Which part of
/// other paths is their file name is left unsaid: that depends on the platform's
/// separators and prefixes.
#[verifier::external_body]
fn path_extension(path: &str) -> (ext: Option<String>)
    ensures
        ext matches Some(e) ==> !e@.contains('.') && contains_text(path@, seq!['.'] + e@),
        forall|k: int|
            #[trigger] has_plain_file_name(path@, k) ==> {
                let name = path@.subrange(k, path@.len() as int);
                match ext {
                    Some(e) => exists|i: int|
                        #[trigger] is_extension_at(name, i) && e@ == name.subrange(i + 1, name.len() as int),
                    None => forall|i: int| 0 < i < name.len() ==> name[i] != '.',
                }
            },
{
    let ext = std::path::Path::new(path).extension()?;
    let text = ext.to_str()?;
    Some(text.to_string())
}

/// A bare file name whose extension is an accepted image extension.
pub open spec fn is_image_file_name(name: Seq<char>) -> bool {
    exists|i: int| #[trigger] is_extension_at(name, i) && is_image_extension(lower(name.subrange(i + 1, name.len() as int)))
}

/// `r` answers, for the file at `path`, whether it is an image the batch tool accepts:
/// where `r` holds, the path holds an accepted extension after a `.`; for a path with a
/// plain file name, `r` holds exactly when that name has an accepted extension.
pub open spec fn image_answer(path: Seq<char>, r: bool) -> bool {
    &&& r ==> exists|e: Seq<char>|
        {
            &&& is_image_extension(lower(e))
            &&& !e.contains('.')
            &&& contains_text(path, seq!['.'] + e)
        }
    &&& forall|k: int|
        #[trigger] has_plain_file_name(path, k) ==> (r == is_image_file_name(
            path.subrange(k, path.len() as int),
        ))
}

/// Returns true for image extensions accepted by the batch tool
/// (`png`, `jpg`, `jpeg`, `bmp`, `webp`, in any ASCII case).
pub fn is_supported_image(path: &str) -> (r: bool)
    ensures
        image_answer(path@, r),
{
    match path_extension(path) {
        Some(e) => {
            let r = is_supported_extension(e.as_str());
            assert(r ==> is_image_extension(lower(e@)) && !e@.contains('.') && contains_text(
                path@,
                seq!['.'] + e@,
            ));
            proof {
                assert forall|k: int| #[trigger] has_plain_file_name(path@, k) implies (r == is_image_file_name(
                    path@.subrange(k, path@.len() as int),
                )) by {
                    let name = path@.subrange(k, path@.len() as int);
                    let i = choose|i: int|
                        #[trigger] is_extension_at(name, i) && e@ == name.subrange(i + 1, name.len() as int);
                    assert forall|m: int| #[trigger] is_extension_at(name, m) implies m == i by {
                        if m < i {
                            assert(name[i] == '.');
                        } else if i < m {
                            assert(name[m] == '.');
                        }
                    }
                }
            }
            r
        },
        None => false,
    }
}

/// The positions, in increasing order, of the paths that name images the batch tool
/// accepts: each path is kept or passed over as [`is_supported_image`] answers for it.
pub fn supported_images(paths: &Vec<String>) -> (kept: Vec<usize>)
    ensures
        forall|j: int| 0 <= j < kept.len() ==> #[trigger] kept@[j] < paths.len(),
        forall|a: int, b: int| 0 <= a < b < kept.len() ==> kept@[a] < kept@[b],
        forall|i: int| 0 <= i < paths.len() ==> image_answer(#[trigger] paths@[i]@, kept@.contains(i as usize)),
{
    let mut kept: Vec<usize> = Vec::new();
    let mut i: usize = 0;
    while i < paths.len()
        invariant
            i <= paths.len(),
            forall|j: int| 0 <= j < kept.len() ==> #[trigger] kept@[j] < i,
            forall|a: int, b: int| 0 <= a < b < kept.len() ==> kept@[a] < kept@[b],
            forall|m: int| 0 <= m < i ==> image_answer(#[trigger] paths@[m]@, kept@.contains(m as usize)),
        decreases paths.len() - i,
    {
        let r = is_supported_image(paths[i].as_str());
        let ghost before = kept@;
        if r {
            kept.push(i);
        }
        assert(kept@.contains(i) == r) by {
            if !r {
                if kept@.contains(i) {
                    let j = choose|j: int| 0 <= j < kept@.len() && kept@[j] == i;
                    assert(kept@[j] < i);
                }
            } else {
                assert(kept@[kept@.len() - 1] == i);
            }
        }
        assert forall|m: int| 0 <= m < i implies #[trigger] kept@.contains(m as usize) == before.contains(m as usize) by {
            if kept@.contains(m as usize) {
                let j = choose|j: int| 0 <= j < kept@.len() && kept@[j] == m as usize;
                if j < before.len() {
                    assert(before[j] == m as usize);
                }
            }
            if before.contains(m as usize) {
                let j = choose|j: int| 0 <= j < before.len() && before[j] == m as usize;
                assert(kept@[j] == m as usize);
            }
        }
        i = i + 1;
    }
    kept
}

/// The stem of a bare file name as `Path::file_stem` documents it: the part before the
/// final `.`, where that `.` is not the name's first character, else the whole name.
pub open spec fn plain_stem(name: Seq<char>) -> Seq<char> {
    if exists|i: int| #[trigger] is_extension_at(name, i) {
        name.subrange(0, choose|i: int| #[trigger] is_extension_at(name, i))
    } else {
        name
    }
}

/// The file stem of a path, as `std::path::Path::file_stem` finds it, as text.
///
/// Claimed of the result: the stem occurs in the path, and for a path with a plain file
/// name (see [`has_plain_file_name`]) there is a stem, the one that the documentation of
/// `Path::file_stem` describes (see [`plain_stem`]). Which part of other paths is their
/// file name is left unsaid: that depends on the platform's separators and prefixes.
#[verifier::external_body]
fn path_file_stem(path: &str) -> (stem: Option<String>)
    ensures
        stem matches Some(s) ==> contains_text(path@, s@),
        forall|k: int|
            #[trigger] has_plain_file_name(path@, k) ==> {
                let name = path@.subrange(k, path@.len() as int);
                match stem {
                    Some(s) => s@ == plain_stem(name),
                    None => false,
                }
            },
{
    let stem = std::path::Path::new(path).file_stem()?;
    let text = stem.to_str()?;
    Some(text.to_string())
}

/// The stem used in a mask file name: the image's file stem, or `"image"`.
pub open spec fn mask_stem(stem: Option<Seq<char>>) -> Seq<char> {
    match stem {
        Some(s) => s,
        None => "image"@,
    }
}

/// File name of mask number `idx` of an image: `{stem}_mask_{idx:03}.png`.
pub open spec fn mask_name(stem: Option<Seq<char>>, idx: nat) -> Seq<char> {
    mask_stem(stem) + "_mask_"@ + zero_padded(idx, 3) + ".png"@
}

/// The file name under which mask number `idx` of an image is written; `stem` is the
/// image's file stem where it has one that is valid text.
pub fn mask_file_name(stem: Option<&str>, idx: usize) -> (name: String)
    ensures
        name@ == mask_name(
            match stem {
                Some(s) => Some(s@),
                None => None,
            },
            idx as nat,
        ),
        name@ == match stem {
            Some(s) => s@,
            None => "image"@,
        } + "_mask_"@ + zero_padded(idx as nat, 3) + ".png"@,
{
    let mut name = match stem {
        Some(s) => String::from_str(s),
        None => String::from_str("image"),
    };
    name.append("_mask_");
    append_zero_padded(&mut name, idx, 3);
    name.append(".png");
    name
}

/// The file name under which mask number `idx` of the image at `image_path` is
/// written: named after the image's file stem, or after `"image"` where the path has
/// none. For a path with a plain file name the stem is the one of that name.
pub fn image_mask_file_name(image_path: &str, idx: usize) -> (name: String)
    ensures
        exists|stem: Option<Seq<char>>|
            {
                &&& name@ == #[trigger] mask_name(stem, idx as nat)
                &&& (stem matches Some(s) ==> contains_text(image_path@, s))
            },
        forall|k: int|
            #[trigger] has_plain_file_name(image_path@, k) ==> name@ == mask_name(
                Some(plain_stem(image_path@.subrange(k, image_path@.len() as int))),
                idx as nat,
            ),
{
    match path_file_stem(image_path) {
        Some(s) => {
            let name = mask_file_name(Some(s.as_str()), idx);
            assert(name@ == mask_name(Some(s@), idx as nat));
            name
        },
        None => {
            let name = mask_file_name(None, idx);
            assert(name@ == mask_name(None, idx as nat));
            name
        },
    }
}

/// A mask file name is the image's stem exactly as given (or `image` where there is
/// none), then `_mask_`, then the mask's number in decimal, zero-padded to at least
/// three digits, then `.png`.
pub proof fn lemma_mask_name_layout(stem: Option<Seq<char>>, idx: nat)
    ensures
        ({
            let name = mask_name(stem, idx);
            let s = match stem {
                Some(s) => s,
                None => "image"@,
            };
            let digits = name.subrange(s.len() as int + 6, name.len() as int - 4);
            &&& name.subrange(0, s.len() as int) == s
            &&& name.subrange(s.len() as int, s.len() as int + 6) == "_mask_"@
            &&& name.subrange(name.len() as int - 4, name.len() as int) == ".png"@
            &&& digits.len() >= 3
            &&& idx < 1000 ==> digits.len() == 3
            &&& digits_value(digits) == idx
            &&& forall|k: int| 0 <= k < digits.len() ==> '0' <= #[trigger] digits[k] <= '9'
        }),
{
    let s = match stem {
        Some(s) => s,
        None => "image"@,
    };
    reveal_strlit("_mask_");
    reveal_strlit(".png");
    let d = zero_padded(idx, 3);
    let name = mask_name(stem, idx);
    assert(name =~= s + "_mask_"@ + d + ".png"@);
    assert(name.subrange(0, s.len() as int) =~= s);
    assert(name.subrange(s.len() as int, s.len() as int + 6) =~= "_mask_"@);
    assert(name.subrange(name.len() as int - 4, name.len() as int) =~= ".png"@);
    assert(name.subrange(s.len() as int + 6, name.len() as int - 4) =~= d);
    lemma_zero_padded_value(idx, 3);
    lemma_zero_padded_digits(idx, 3);
}

/// Masks of one image never share a file name: distinct indices give distinct names.
pub proof fn lemma_mask_names_distinct(stem: Option<Seq<char>>, i: nat, j: nat)
    requires
        mask_name(stem, i) == mask_name(stem, j),
    ensures
        i == j,
{
    let p = mask_stem(stem) + "_mask_"@;
    let a = zero_padded(i, 3);
    let b = zero_padded(j, 3);
    let x = p + a + ".png"@;
    let y = p + b + ".png"@;
    assert(x.len() == y.len());
    assert(a =~= x.subrange(p.len() as int, (p.len() + a.len()) as int));
    assert(b =~= y.subrange(p.len() as int, (p.len() + b.len()) as int));
    lemma_zero_padded_value(i, 3);
    lemma_zero_padded_value(j, 3);
}

} // verus!
