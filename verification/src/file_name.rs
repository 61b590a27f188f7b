//! Deriving the output file name: `path/to/file-name.bas` becomes
//! `path/to/file-name.wav`.
//!
//! Paths are byte strings with `/` as the directory separator. The file name
//! is everything after the last separator; it has an extension when a dot
//! stands somewhere after its first character, and the extension is what
//! follows the last such dot. Only the extension `bas` is accepted.

use vstd::prelude::*;

verus! {

/// The byte of the extension separator `.`.
pub const DOT: u8 = 46;

/// The byte of the directory separator `/`.
pub const SLASH: u8 = 47;

/// The byte of the letter `b`.
pub const LETTER_B: u8 = 98;

/// The byte of the letter `a`.
pub const LETTER_A: u8 = 97;

/// The byte of the letter `s`.
pub const LETTER_S: u8 = 115;

/// The byte of the letter `w`.
pub const LETTER_W: u8 = 119;

/// The byte of the letter `v`.
pub const LETTER_V: u8 = 118;

/// Why no output name could be derived.
#[derive(Clone, Copy, Debug, PartialEq, Eq, Structural)]
pub enum NameError {
    /// The path's file name has no extension.
    NoExtension,
    /// The path's file name has an extension other than `bas`.
    WrongExtension,
}

/// The path's file name has an extension: some dot stands inside the last
/// path component, after the component's first character.
pub open spec fn has_extension(p: Seq<u8>) -> bool {
    exists|k: int|
        1 <= k < p.len() && #[trigger] p[k] == DOT && p[k - 1] != SLASH && (forall|j: int|
            k < j < p.len() ==> p[j] != SLASH)
}

/// The path's file name has the extension `bas`: it ends in `.bas` and the
/// dot stands after the first character of the last path component.
pub open spec fn is_bas_path(p: Seq<u8>) -> bool {
    &&& p.len() >= 5
    &&& p[p.len() - 4] == DOT
    &&& p[p.len() - 3] == LETTER_B
    &&& p[p.len() - 2] == LETTER_A
    &&& p[p.len() - 1] == LETTER_S
    &&& p[p.len() - 5] != SLASH
}

/// The derived output name: the path with its final `bas` replaced by `wav`.
pub open spec fn wav_name(p: Seq<u8>) -> Seq<u8> {
    p.take(p.len() - 3) + seq![LETTER_W, LETTER_A, LETTER_V]
}

/// Derives `file-name.wav` from `file-name.bas`, keeping the directory.
/// Rejects a path whose file name has no extension or one other than `bas`.
pub fn wav_file_name(path: &Vec<u8>) -> (r: Result<Vec<u8>, NameError>)
    ensures
        r is Ok <==> is_bas_path(path@),
        r is Ok ==> r->Ok_0@ == wav_name(path@),
        r matches Err(NameError::NoExtension) <==> !has_extension(path@),
        r matches Err(NameError::WrongExtension) <==> (has_extension(path@) && !is_bas_path(
            path@,
        )),
{
    let n = path.len();
    // The last dot or slash of the whole path; n when there is neither.
    let mut last_mark: usize = n;
    let mut i: usize = 0;
    while i < n
        invariant
            n == path@.len(),
            i <= n,
            last_mark <= n,
            last_mark == n ==> forall|t: int|
                0 <= t < i ==> (path@[t] != DOT && #[trigger] path@[t] != SLASH),
            last_mark < n ==> last_mark < i && (path@[last_mark as int] == DOT
                || path@[last_mark as int] == SLASH) && (forall|t: int|
                last_mark < t < i ==> (path@[t] != DOT && #[trigger] path@[t] != SLASH)),
        decreases n - i,
    {
        let c = path[i];
        if c == DOT || c == SLASH {
            last_mark = i;
        }
        i = i + 1;
    }
    if last_mark == n || path[last_mark] == SLASH || last_mark == 0 || path[last_mark - 1] == SLASH
    {
        // No dot at all, no dot inside the last component, or the dot opens
        // the file name: no extension.
        proof {
            assert(!has_extension(path@)) by {
                if has_extension(path@) {
                    let k = choose|k: int|
                        1 <= k < path@.len() && #[trigger] path@[k] == DOT && path@[k - 1] != SLASH && (
                        forall|j: int| k < j < path@.len() ==> path@[j] != SLASH);
                    if last_mark == n {
                        assert(path@[k] != DOT);
                    } else if path@[last_mark as int] == SLASH {
                        // Every dot is at or before the last mark, yet no
                        // slash may follow the dot.
                        if k > last_mark as int {
                            assert(path@[k] != DOT);
                        } else {
                            assert(path@[last_mark as int] != SLASH);
                        }
                    } else {
                        // The last mark is a dot whose predecessor is a
                        // slash (or which opens the path).
                        if k > last_mark as int {
                            assert(path@[k] != DOT);
                        } else if k == last_mark as int {
                            assert(path@[k - 1] != SLASH);
                        } else {
                            assert(path@[last_mark as int - 1] != SLASH);
                        }
                    }
                }
            }
            assert(!is_bas_path(path@)) by {
                if is_bas_path(path@) {
                    let m = path@.len();
                    assert(has_extension(path@)) by {
                        assert(1 <= m - 4 < m && path@[m - 4] == DOT && path@[m - 4 - 1] != SLASH
                            && (forall|j: int| m - 4 < j < m ==> path@[j] != SLASH));
                    }
                }
            }
        }
        return Err(NameError::NoExtension);
    }
    // The last mark is a dot inside the last component, after the
    // component's first character: the file name has an extension.
    proof {
        assert(has_extension(path@)) by {
            let k = last_mark as int;
            assert(1 <= k < path@.len() && path@[k] == DOT && path@[k - 1] != SLASH && (forall|j: int|
                k < j < path@.len() ==> path@[j] != SLASH));
        }
    }
    if !(n - last_mark == 4 && path[n - 3] == LETTER_B && path[n - 2] == LETTER_A && path[n - 1]
        == LETTER_S) {
        proof {
            assert(!is_bas_path(path@)) by {
                if is_bas_path(path@) {
                    let m = path@.len();
                    // The last three bytes are letters, so the last mark can
                    // only be the dot four from the end.
                    assert(path@[m - 4] == DOT);
                    if (last_mark as int) < m - 4 {
                        assert(path@[m - 4] != DOT);
                    } else if (last_mark as int) > m - 4 {
                        assert(path@[last_mark as int] != DOT && path@[last_mark as int] != SLASH);
                    }
                }
            }
        }
        return Err(NameError::WrongExtension);
    }
    let mut out: Vec<u8> = Vec::new();
    let mut j: usize = 0;
    while j < n - 3
        invariant
            n == path@.len(),
            n >= 3,
            j <= n - 3,
            out@ == path@.take(j as int),
        decreases n - 3 - j,
    {
        out.push(path[j]);
        proof {
            assert(path@.take(j as int + 1) =~= path@.take(j as int).push(path@[j as int]));
        }
        j = j + 1;
    }
    out.push(LETTER_W);
    out.push(LETTER_A);
    out.push(LETTER_V);
    proof {
        assert(out@ =~= wav_name(path@));
    }
    Ok(out)
}

} // verus!
