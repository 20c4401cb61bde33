//! Deriving a filesystem-safe file name from arbitrary caption text:
//! trim surrounding whitespace, turn inner spaces into underscores,
//! lowercase, drop everything that is not alphanumeric or underscore,
//! and append the ".png" extension.

use vstd::prelude::*;
use vstd::string::*;

verus! {

/// What `char::is_whitespace` returns for `c`.
pub uninterp spec fn is_ws_char(c: char) -> bool;

/// Relies on char::is_whitespace: whether `c` has the Unicode whitespace
/// property; a pure function of the character.
pub assume_specification[ char::is_whitespace ](c: char) -> (r: bool)
    ensures
        r == is_ws_char(c),
;

/// What `char::is_alphanumeric` returns for `c`.
pub uninterp spec fn is_alnum_char(c: char) -> bool;

/// Relies on char::is_alphanumeric: whether `c` is a Unicode letter or
/// digit. Letters and digits are never a space, a path separator or a dot.
pub assume_specification[ char::is_alphanumeric ](c: char) -> (r: bool)
    ensures
        r == is_alnum_char(c),
        r ==> c != ' ' && c != '/' && c != '\\' && c != '.',
;

/// What `char::is_uppercase` returns for `c`.
pub uninterp spec fn is_upper_char(c: char) -> bool;

/// Relies on char::is_uppercase: whether `c` has the Unicode uppercase
/// property; a pure function of the character.
pub assume_specification[ char::is_uppercase ](c: char) -> (r: bool)
    ensures
        r == is_upper_char(c),
;

/// An ASCII capital letter, 'A' through 'Z'.
pub open spec fn is_ascii_capital(c: char) -> bool {
    ('A' as u32) <= (c as u32) && (c as u32) <= ('Z' as u32)
}

/// What `str::to_lowercase` returns, as a sequence of characters.
pub uninterp spec fn lower_of(s: Seq<char>) -> Seq<char>;

/// Relies on str::to_lowercase: the lowercase equivalent of the string, a
/// pure function of its characters. Every ASCII capital has a lowercase
/// mapping, so none survives; a character that is still uppercase
/// afterwards is one of the input's own, kept unchanged because Unicode
/// gives it no lowercase mapping.
pub assume_specification[ str::to_lowercase ](s: &str) -> (r: String)
    ensures
        r@ == lower_of(s@),
        forall|i: int| 0 <= i < r@.len() ==> !is_ascii_capital(#[trigger] r@[i]),
        forall|i: int|
            0 <= i < r@.len() ==> (is_upper_char(#[trigger] r@[i]) ==> s@.contains(r@[i])),
;

/// Relies on String::push: appends one character at the end.
pub assume_specification[ String::push ](s: &mut String, c: char)
    ensures
        final(s)@ == old(s)@.push(c),
;

/// The string with its leading whitespace removed.
pub open spec fn ltrim(s: Seq<char>) -> Seq<char>
    decreases s.len(),
{
    if s.len() > 0 && is_ws_char(s[0]) {
        ltrim(s.drop_first())
    } else {
        s
    }
}

/// The string with its trailing whitespace removed.
pub open spec fn rtrim(s: Seq<char>) -> Seq<char>
    decreases s.len(),
{
    if s.len() > 0 && is_ws_char(s.last()) {
        rtrim(s.drop_last())
    } else {
        s
    }
}

/// The string with whitespace removed from both ends.
pub open spec fn trim_spec(s: Seq<char>) -> Seq<char> {
    rtrim(ltrim(s))
}

/// Every space replaced by an underscore.
pub open spec fn underscored(s: Seq<char>) -> Seq<char> {
    Seq::new(
        s.len(),
        |i: int|
            if s[i] == ' ' {
                '_'
            } else {
                s[i]
            },
    )
}

/// Which characters survive sanitization: alphanumerics and underscores.
pub open spec fn keep_char(c: char) -> bool {
    is_alnum_char(c) || c == '_'
}

/// The subsequence of characters that survive sanitization, in order.
pub open spec fn kept(s: Seq<char>) -> Seq<char>
    decreases s.len(),
{
    if s.len() == 0 {
        Seq::empty()
    } else {
        let p = kept(s.drop_last());
        if keep_char(s.last()) {
            p.push(s.last())
        } else {
            p
        }
    }
}

/// The sanitized file name for caption `s`: trim, spaces to underscores,
/// lowercase, keep only alphanumerics and underscores, add ".png".
pub open spec fn sanitize_spec(s: Seq<char>) -> Seq<char> {
    kept(lower_of(underscored(trim_spec(s)))) + ".png"@
}

/// If the first `k` characters are whitespace and the one after them (if
/// any) is not, left-trimming drops exactly those `k`.
proof fn lemma_ltrim_prefix(s: Seq<char>, k: int)
    requires
        0 <= k <= s.len(),
        forall|j: int| 0 <= j < k ==> is_ws_char(s[j]),
        k == s.len() || !is_ws_char(s[k]),
    ensures
        ltrim(s) == s.subrange(k, s.len() as int),
    decreases k,
{
    if k == 0 {
        assert(s.subrange(0, s.len() as int) =~= s);
    } else {
        assert(is_ws_char(s[0]));
        let t = s.drop_first();
        assert forall|j: int| 0 <= j < k - 1 implies is_ws_char(t[j]) by {
            assert(t[j] == s[j + 1]);
        }
        assert(k - 1 == t.len() || !is_ws_char(t[k - 1]));
        lemma_ltrim_prefix(t, k - 1);
        assert(t.subrange(k - 1, t.len() as int) =~= s.subrange(k, s.len() as int));
    }
}

/// If everything from position `k` on is whitespace and the character just
/// before (if any) is not, right-trimming keeps exactly the first `k`.
proof fn lemma_rtrim_suffix(s: Seq<char>, k: int)
    requires
        0 <= k <= s.len(),
        forall|j: int| k <= j < s.len() ==> is_ws_char(s[j]),
        k == 0 || !is_ws_char(s[k - 1]),
    ensures
        rtrim(s) == s.subrange(0, k),
    decreases s.len(),
{
    if k == s.len() {
        assert(s.subrange(0, k) =~= s);
    } else {
        assert(is_ws_char(s[s.len() - 1]));
        let t = s.drop_last();
        assert forall|j: int| k <= j < t.len() implies is_ws_char(t[j]) by {
            assert(t[j] == s[j]);
        }
        lemma_rtrim_suffix(t, k);
        assert(t.subrange(0, k) =~= s.subrange(0, k));
    }
}

/// Sanitize a caption into a safe single-segment file name. The result is
/// the caption trimmed, spaces underscored, lowercased, stripped to
/// alphanumerics and underscores, with ".png" appended; it never holds a
/// space, a path separator or an ASCII capital, its only dot is the
/// extension's, and any character still uppercase (one Unicode cannot
/// lowercase) already stood in the caption. Degenerate captions give just
/// ".png".
#[verifier::loop_isolation(false)]
pub fn sanitize_name(name: &str) -> (r: String)
    ensures
        r@ == sanitize_spec(name@),
        r@.len() >= 4,
        r@.subrange(r@.len() - 4, r@.len() as int) == ".png"@,
        forall|k: int| 0 <= k < r@.len() ==> r@[k] != ' ' && r@[k] != '/' && r@[k] != '\\',
        forall|k: int| 0 <= k < r@.len() - 4 ==> keep_char(#[trigger] r@[k]),
        forall|k: int| 0 <= k < r@.len() - 4 ==> #[trigger] r@[k] != '.',
        forall|k: int| 0 <= k < r@.len() - 4 ==> !is_ascii_capital(#[trigger] r@[k]),
        forall|k: int|
            0 <= k < r@.len() - 4 ==> (is_upper_char(#[trigger] r@[k]) ==> name@.contains(r@[k])
                || r@[k] == '_'),
{
    let n: usize = name.unicode_len();
    let mut start: usize = 0;
    while start < n && name.get_char(start).is_whitespace()
        invariant
            start <= n,
            forall|j: int| 0 <= j < start ==> is_ws_char(name@[j]),
        decreases n - start,
    {
        start += 1;
    }
    proof {
        lemma_ltrim_prefix(name@, start as int);
    }
    let ghost lt = name@.subrange(start as int, n as int);
    let mut end: usize = n;
    while end > start && name.get_char(end - 1).is_whitespace()
        invariant
            start <= end <= n,
            forall|j: int| end <= j < n ==> is_ws_char(name@[j]),
        decreases end,
    {
        end -= 1;
    }
    proof {
        assert forall|j: int| (end - start) <= j < lt.len() implies is_ws_char(lt[j]) by {
            assert(lt[j] == name@[j + start]);
        }
        lemma_rtrim_suffix(lt, end - start);
        assert(lt.subrange(0, end - start) =~= name@.subrange(start as int, end as int));
        assert(trim_spec(name@) == name@.subrange(start as int, end as int));
    }
    let mut mid: String = String::new();
    let mut k: usize = start;
    while k < end
        invariant
            start <= k <= end,
            mid@ == underscored(name@.subrange(start as int, k as int)),
        decreases end - k,
    {
        let c: char = name.get_char(k);
        let c2: char = if c == ' ' {
            '_'
        } else {
            c
        };
        mid.push(c2);
        proof {
            assert(underscored(name@.subrange(start as int, k + 1)) =~= underscored(
                name@.subrange(start as int, k as int),
            ).push(c2));
        }
        k += 1;
    }
    proof {
        assert(mid@ == underscored(trim_spec(name@)));
    }
    let lowered: String = mid.as_str().to_lowercase();
    let m: usize = lowered.as_str().unicode_len();
    let mut out: String = String::new();
    let mut k2: usize = 0;
    while k2 < m
        invariant
            k2 <= m,
            lowered@.len() == m,
            out@ == kept(lowered@.subrange(0, k2 as int)),
            forall|t: int|
                0 <= t < out@.len() ==> out@[t] != ' ' && out@[t] != '/' && out@[t] != '\\'
                    && out@[t] != '.',
            forall|t: int| 0 <= t < out@.len() ==> keep_char(#[trigger] out@[t]),
            forall|t: int| 0 <= t < out@.len() ==> !is_ascii_capital(#[trigger] out@[t]),
            forall|t: int|
                0 <= t < out@.len() ==> (is_upper_char(#[trigger] out@[t]) ==> mid@.contains(
                    out@[t],
                ) || out@[t] == '_'),
        decreases m - k2,
    {
        let c: char = lowered.as_str().get_char(k2);
        if c.is_alphanumeric() || c == '_' {
            out.push(c);
        }
        proof {
            let pre = lowered@.subrange(0, k2 as int);
            let cur = lowered@.subrange(0, k2 + 1);
            assert(cur.drop_last() =~= pre);
            assert(cur.last() == c);
            assert(c == lowered@[k2 as int]);
            assert(!is_ascii_capital(c));
            assert(is_upper_char(c) ==> mid@.contains(c));
        }
        k2 += 1;
    }
    proof {
        assert(lowered@.subrange(0, m as int) =~= lowered@);
        assert(out@ == kept(lower_of(underscored(trim_spec(name@)))));
        reveal_strlit(".png");
    }
    let mut res: String = out;
    res.append(".png");
    proof {
        assert(res@ == sanitize_spec(name@));
        assert(res@.subrange(res@.len() - 4, res@.len() as int) =~= ".png"@);
        assert(".png"@[0] == '.' && ".png"@[1] == 'p' && ".png"@[2] == 'n' && ".png"@[3] == 'g');
        assert forall|t: int| 0 <= t < res@.len() implies res@[t] != ' ' && res@[t] != '/'
            && res@[t] != '\\' by {
            if t < res@.len() - 4 {
                assert(res@[t] == out@[t]);
            } else {
                assert(res@[t] == ".png"@[t - (res@.len() - 4)]);
            }
        }
        assert forall|t: int| 0 <= t < res@.len() - 4 implies keep_char(#[trigger] res@[t]) by {
            assert(res@[t] == out@[t]);
        }
        assert forall|t: int| 0 <= t < res@.len() - 4 implies #[trigger] res@[t] != '.' by {
            assert(res@[t] == out@[t]);
        }
        assert forall|t: int|
            0 <= t < res@.len() - 4 implies !is_ascii_capital(#[trigger] res@[t]) by {
            assert(res@[t] == out@[t]);
        }
        assert forall|t: int|
            0 <= t < res@.len() - 4 implies (is_upper_char(#[trigger] res@[t]) ==> name@.contains(
                res@[t],
            ) || res@[t] == '_') by {
            assert(res@[t] == out@[t]);
            if is_upper_char(out@[t]) && out@[t] != '_' {
                let c = out@[t];
                assert(mid@.contains(c));
                assert(exists|jm: int| 0 <= jm < mid@.len() && mid@[jm] == c);
                let jm = choose|jm: int| 0 <= jm < mid@.len() && mid@[jm] == c;
                let tr = name@.subrange(start as int, end as int);
                assert(mid@ == underscored(tr));
                assert(mid@[jm] == (if tr[jm] == ' ' {
                    '_'
                } else {
                    tr[jm]
                }));
                assert(tr[jm] == c);
                assert(0 <= start + jm < name@.len() && name@[start + jm] == c);
                assert(name@.contains(c));
            }
        }
    }
    res
}

} // verus!
