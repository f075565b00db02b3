//! Byte-string text checks: validity of UTF-8 and substring search.
//!
//! Tags travel as byte strings; search decodes both sides as text and an
//! undecodable byte string is an error, never a silent skip.  For valid
//! UTF-8 on both sides, a substring of the decoded text is exactly a
//! subrange of the encoded bytes, so the search itself works on bytes.

use vstd::prelude::*;

verus! {

/// Whether `b` is a UTF-8 continuation byte.
pub open spec fn is_cont(b: u8) -> bool {
    0x80 <= b < 0xC0
}

/// Whether `s` is a well-formed UTF-8 byte string: a sequence of one- to
/// four-byte encodings, with overlong forms, surrogates and values past
/// the last code point all rejected.
pub open spec fn is_utf8(s: Seq<u8>) -> bool
    decreases s.len(),
{
    if s.len() == 0 {
        true
    } else {
        let b0 = s[0];
        if b0 < 0x80 {
            is_utf8(s.skip(1))
        } else if 0xC2 <= b0 < 0xE0 {
            s.len() >= 2 && is_cont(s[1]) && is_utf8(s.skip(2))
        } else if b0 == 0xE0 {
            s.len() >= 3 && 0xA0 <= s[1] < 0xC0 && is_cont(s[2]) && is_utf8(s.skip(3))
        } else if 0xE1 <= b0 < 0xED {
            s.len() >= 3 && is_cont(s[1]) && is_cont(s[2]) && is_utf8(s.skip(3))
        } else if b0 == 0xED {
            s.len() >= 3 && 0x80 <= s[1] < 0xA0 && is_cont(s[2]) && is_utf8(s.skip(3))
        } else if 0xEE <= b0 < 0xF0 {
            s.len() >= 3 && is_cont(s[1]) && is_cont(s[2]) && is_utf8(s.skip(3))
        } else if b0 == 0xF0 {
            s.len() >= 4 && 0x90 <= s[1] < 0xC0 && is_cont(s[2]) && is_cont(s[3]) && is_utf8(
                s.skip(4),
            )
        } else if 0xF1 <= b0 < 0xF4 {
            s.len() >= 4 && is_cont(s[1]) && is_cont(s[2]) && is_cont(s[3]) && is_utf8(s.skip(4))
        } else if b0 == 0xF4 {
            s.len() >= 4 && 0x80 <= s[1] < 0x90 && is_cont(s[2]) && is_cont(s[3]) && is_utf8(
                s.skip(4),
            )
        } else {
            false
        }
    }
}

/// Whether `needle` occurs as a contiguous run of bytes inside `hay`.  The
/// empty needle occurs in everything.
pub open spec fn is_substring(needle: Seq<u8>, hay: Seq<u8>) -> bool {
    exists|k: int|
        0 <= k <= hay.len() - needle.len() && #[trigger] hay.subrange(k, k + needle.len())
            == needle
}

/// Checks that `s` is well-formed UTF-8.
pub fn check_utf8(s: &Vec<u8>) -> (r: bool)
    ensures
        r == is_utf8(s@),
{
    let n = s.len();
    let mut i: usize = 0;
    proof {
        assert(s@.skip(0) =~= s@);
    }
    while i < n
        invariant
            i <= n,
            n == s@.len(),
            is_utf8(s@) <==> is_utf8(s@.skip(i as int)),
        decreases n - i,
    {
        let ghost tail = s@.skip(i as int);
        let b0 = s[i];
        proof {
            assert(tail[0] == b0);
            assert(tail.len() == n - i);
        }
        let step: usize;
        if b0 < 0x80 {
            step = 1;
        } else if 0xC2 <= b0 && b0 < 0xE0 {
            if n - i < 2 || !cont_at(s, i + 1) {
                proof {
                    assert(i + 2 <= n ==> tail[1] == s@[i + 1]);
                }
                return false;
            }
            step = 2;
        } else if b0 == 0xE0 {
            if n - i < 3 || !(0xA0 <= s[i + 1] && s[i + 1] < 0xC0) || !cont_at(s, i + 2) {
                proof {
                    assert(i + 2 <= n ==> tail[1] == s@[i + 1]);
                    assert(i + 3 <= n ==> tail[2] == s@[i + 2]);
                }
                return false;
            }
            step = 3;
        } else if 0xE1 <= b0 && b0 < 0xED {
            if n - i < 3 || !cont_at(s, i + 1) || !cont_at(s, i + 2) {
                proof {
                    assert(i + 2 <= n ==> tail[1] == s@[i + 1]);
                    assert(i + 3 <= n ==> tail[2] == s@[i + 2]);
                }
                return false;
            }
            step = 3;
        } else if b0 == 0xED {
            if n - i < 3 || !(0x80 <= s[i + 1] && s[i + 1] < 0xA0) || !cont_at(s, i + 2) {
                proof {
                    assert(i + 2 <= n ==> tail[1] == s@[i + 1]);
                    assert(i + 3 <= n ==> tail[2] == s@[i + 2]);
                }
                return false;
            }
            step = 3;
        } else if 0xEE <= b0 && b0 < 0xF0 {
            if n - i < 3 || !cont_at(s, i + 1) || !cont_at(s, i + 2) {
                proof {
                    assert(i + 2 <= n ==> tail[1] == s@[i + 1]);
                    assert(i + 3 <= n ==> tail[2] == s@[i + 2]);
                }
                return false;
            }
            step = 3;
        } else if b0 == 0xF0 {
            if n - i < 4 || !(0x90 <= s[i + 1] && s[i + 1] < 0xC0) || !cont_at(s, i + 2)
                || !cont_at(s, i + 3) {
                proof {
                    assert(i + 2 <= n ==> tail[1] == s@[i + 1]);
                    assert(i + 3 <= n ==> tail[2] == s@[i + 2]);
                    assert(i + 4 <= n ==> tail[3] == s@[i + 3]);
                }
                return false;
            }
            step = 4;
        } else if 0xF1 <= b0 && b0 < 0xF4 {
            if n - i < 4 || !cont_at(s, i + 1) || !cont_at(s, i + 2) || !cont_at(s, i + 3) {
                proof {
                    assert(i + 2 <= n ==> tail[1] == s@[i + 1]);
                    assert(i + 3 <= n ==> tail[2] == s@[i + 2]);
                    assert(i + 4 <= n ==> tail[3] == s@[i + 3]);
                }
                return false;
            }
            step = 4;
        } else if b0 == 0xF4 {
            if n - i < 4 || !(0x80 <= s[i + 1] && s[i + 1] < 0x90) || !cont_at(s, i + 2)
                || !cont_at(s, i + 3) {
                proof {
                    assert(i + 2 <= n ==> tail[1] == s@[i + 1]);
                    assert(i + 3 <= n ==> tail[2] == s@[i + 2]);
                    assert(i + 4 <= n ==> tail[3] == s@[i + 3]);
                }
                return false;
            }
            step = 4;
        } else {
            return false;
        }
        proof {
            assert(forall|j: int| 1 <= j < step && i + j < n ==> tail[j] == s@[i + j]);
            assert(tail.skip(step as int) =~= s@.skip(i as int + step as int));
            assert(is_utf8(tail) <==> is_utf8(s@.skip(i as int + step as int)));
        }
        i += step;
    }
    proof {
        assert(s@.skip(n as int) =~= Seq::<u8>::empty());
    }
    true
}

/// Whether the byte at `j` is a continuation byte.
fn cont_at(s: &Vec<u8>, j: usize) -> (r: bool)
    requires
        j < s@.len(),
    ensures
        r == is_cont(s@[j as int]),
{
    0x80 <= s[j] && s[j] < 0xC0
}

/// Checks whether `needle` matches the bytes of `hay` starting at `k`.
fn match_at(hay: &Vec<u8>, needle: &Vec<u8>, k: usize) -> (r: bool)
    requires
        k + needle@.len() <= hay@.len(),
    ensures
        r == (hay@.subrange(k as int, k as int + needle@.len()) == needle@),
{
    let m = needle.len();
    let n = hay.len();
    let mut j: usize = 0;
    while j < m
        invariant
            j <= m,
            m == needle@.len(),
            n == hay@.len(),
            k + m <= n,
            forall|jj: int| 0 <= jj < j ==> hay@[k + jj] == needle@[jj],
        decreases m - j,
    {
        if hay[k + j] != needle[j] {
            proof {
                assert(hay@.subrange(k as int, k as int + m) != needle@) by {
                    assert(hay@.subrange(k as int, k as int + m as int)[j as int] == hay@[
                        k + j
                    ]);
                }
            }
            return false;
        }
        j += 1;
    }
    proof {
        assert(hay@.subrange(k as int, k as int + m) =~= needle@);
    }
    true
}

/// Checks whether `needle` occurs anywhere in `hay`.
pub fn contains_bytes(hay: &Vec<u8>, needle: &Vec<u8>) -> (r: bool)
    ensures
        r == is_substring(needle@, hay@),
{
    let m = needle.len();
    let n = hay.len();
    if m > n {
        return false;
    }
    if m == 0 {
        proof {
            let z: int = 0;
            assert(hay@.subrange(z, z + needle@.len()) =~= needle@);
        }
        return true;
    }
    let limit = n - m;
    let mut k: usize = 0;
    while k <= limit
        invariant
            k <= limit + 1,
            limit == n - m,
            m == needle@.len(),
            n == hay@.len(),
             1 <= m <= n,
            forall|kk: int|
                0 <= kk < k ==> #[trigger] hay@.subrange(kk, kk + needle@.len()) != needle@,
        decreases limit + 1 - k,
    {
        if match_at(hay, needle, k) {
            return true;
        }
        k += 1;
    }
    false
}

} // verus!
