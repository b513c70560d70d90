//! Decomposition of a raw session-cookie string into credential fields.
//!
//! The raw text is the browser's cookie line: fragments separated by
//! `;`, each fragment `key=value` with optional surrounding spaces. The
//! required sub-tokens are `ltuid`, `ltoken`, `cookie_token` and
//! `account_id`; the locale comes from `mi18nLang` when present. The
//! first missing sub-token, in that order, is reported; the whole string
//! must be ASCII.

use vstd::prelude::*;
use vstd::string::{StrSliceExecFns, StringExecFns};
use vstd::utf8::is_ascii_chars;

use crate::model::CredentialModel;
use crate::store::CredentialFields;

verus! {

/// Why a raw credential string was rejected. User-facing and
/// recoverable: the linking workflow reports it and stops.
#[derive(Clone, Copy, PartialEq, Eq, Structural, Debug)]
pub enum CookieError {
    NotAscii,
    MissingLtuid,
    MissingLtoken,
    MissingCookieToken,
    MissingAccountId,
}

/// The first position at or after `from` holding `c`, or the length.
pub open spec fn find_at(s: Seq<char>, from: nat, c: char) -> nat
    decreases s.len() - from,
    when from <= s.len()
{
    if from >= s.len() {
        s.len()
    } else if s[from as int] == c {
        from
    } else {
        find_at(s, from + 1, c)
    }
}

pub proof fn lemma_find_at(s: Seq<char>, from: nat, c: char)
    requires
        from <= s.len(),
    ensures
        from <= find_at(s, from, c) <= s.len(),
        find_at(s, from, c) < s.len() ==> s[find_at(s, from, c) as int] == c,
        forall|k: int| from <= k < find_at(s, from, c) ==> s[k] != c,
    decreases s.len() - from,
{
    if from < s.len() && s[from as int] != c {
        lemma_find_at(s, from + 1, c);
    }
}

/// The first position at or after `from` holding no space.
pub open spec fn skip_spaces(s: Seq<char>, from: nat) -> nat
    decreases s.len() - from,
    when from <= s.len()
{
    if from >= s.len() {
        s.len()
    } else if s[from as int] != ' ' {
        from
    } else {
        skip_spaces(s, from + 1)
    }
}

/// The position after the last non-space strictly before `upto`.
pub open spec fn rskip_spaces(s: Seq<char>, upto: nat) -> nat
    decreases upto,
    when upto <= s.len()
{
    if upto == 0 {
        0
    } else if s[upto - 1] != ' ' {
        upto
    } else {
        rskip_spaces(s, (upto - 1) as nat)
    }
}

/// The fragment with leading and trailing spaces removed.
pub open spec fn trimmed(s: Seq<char>) -> Seq<char> {
    let a = skip_spaces(s, 0);
    let b = rskip_spaces(s, s.len());
    if a <= b {
        s.subrange(a as int, b as int)
    } else {
        Seq::empty()
    }
}

/// The fragments of `s` from `from` on, split on `;`.
pub open spec fn split_from(s: Seq<char>, from: nat) -> Seq<Seq<char>>
    decreases s.len() - from,
    when from <= s.len()
    via split_from_decreases
{
    let j = find_at(s, from, ';');
    if j >= s.len() {
        seq![s.subrange(from as int, s.len() as int)]
    } else {
        seq![s.subrange(from as int, j as int)] + split_from(s, j + 1)
    }
}

#[via_fn]
proof fn split_from_decreases(s: Seq<char>, from: nat) {
    if from <= s.len() {
        lemma_find_at(s, from, ';');
    }
}

/// One key=value sub-token of the cookie line.
pub struct PairModel {
    pub key: Seq<char>,
    pub value: Seq<char>,
}

/// The pair a fragment stands for: trimmed and split at the first `=`;
/// a fragment without `=` stands for none.
pub open spec fn pair_of(frag: Seq<char>) -> Option<PairModel> {
    let t = trimmed(frag);
    let j = find_at(t, 0, '=');
    if j >= t.len() {
        None
    } else {
        Some(PairModel { key: t.subrange(0, j as int), value: t.subrange(j as int + 1, t.len() as int) })
    }
}

/// The pairs of a fragment list, in order, fragments without `=`
/// dropped.
pub open spec fn pairs_from(frags: Seq<Seq<char>>) -> Seq<PairModel>
    decreases frags.len(),
{
    if frags.len() == 0 {
        Seq::empty()
    } else {
        match pair_of(frags[0]) {
            Some(p) => seq![p] + pairs_from(frags.drop_first()),
            None => pairs_from(frags.drop_first()),
        }
    }
}

/// All key=value pairs of the cookie line, in order.
pub open spec fn cookie_pairs(s: Seq<char>) -> Seq<PairModel> {
    pairs_from(split_from(s, 0))
}

/// The value of the first pair with the given key.
pub open spec fn lookup(pairs: Seq<PairModel>, key: Seq<char>) -> Option<Seq<char>>
    decreases pairs.len(),
{
    if pairs.len() == 0 {
        None
    } else if pairs[0].key == key {
        Some(pairs[0].value)
    } else {
        lookup(pairs.drop_first(), key)
    }
}

/// The locale sub-token, or the default locale.
pub open spec fn locale_of(pairs: Seq<PairModel>) -> Seq<char> {
    match lookup(pairs, "mi18nLang"@) {
        Some(l) => l,
        None => "en-us"@,
    }
}

/// What decomposing a raw credential string yields: the decomposed
/// fields, or the first reason the string is rejected.
pub open spec fn decompose_spec(s: Seq<char>) -> Result<CredentialModel, CookieError> {
    if !is_ascii_chars(s) {
        Err(CookieError::NotAscii)
    } else {
        let pairs = cookie_pairs(s);
        match lookup(pairs, "ltuid"@) {
            None => Err(CookieError::MissingLtuid),
            Some(ltuid) => match lookup(pairs, "ltoken"@) {
                None => Err(CookieError::MissingLtoken),
                Some(ltoken) => match lookup(pairs, "cookie_token"@) {
                    None => Err(CookieError::MissingCookieToken),
                    Some(cookie_token) => match lookup(pairs, "account_id"@) {
                        None => Err(CookieError::MissingAccountId),
                        Some(account_id) => Ok(
                            CredentialModel {
                                ltuid,
                                ltoken,
                                cookie_token,
                                account_id,
                                lang: locale_of(pairs),
                            },
                        ),
                    },
                },
            },
        }
    }
}

struct CookiePair {
    key: String,
    value: String,
}

impl View for CookiePair {
    type V = PairModel;

    closed spec fn view(&self) -> PairModel {
        PairModel { key: self.key@, value: self.value@ }
    }
}

spec fn pair_views(v: Seq<CookiePair>) -> Seq<PairModel> {
    v.map_values(|p: CookiePair| p@)
}

/// The first position at or after `from` holding `c`, or the length.
fn find_char(s: &str, from: usize, c: char) -> (i: usize)
    requires
        from <= s@.len(),
    ensures
        i == find_at(s@, from as nat, c),
        from <= i <= s@.len(),
{
    let len = s.unicode_len();
    let mut i: usize = from;
    while i < len
        invariant
            from <= i <= len,
            len == s@.len(),
            find_at(s@, from as nat, c) == find_at(s@, i as nat, c),
        decreases len - i,
    {
        if s.get_char(i) == c {
            return i;
        }
        i += 1;
    }
    i
}

/// The pair one fragment of the cookie line stands for.
fn parse_fragment(s: &str, from: usize, to: usize) -> (r: Option<CookiePair>)
    requires
        s.is_ascii(),
        from <= to <= s@.len(),
    ensures
        (match (r, pair_of(s@.subrange(from as int, to as int))) {
            (Some(cp), Some(pm)) => cp@ == pm,
            (None, None) => true,
            _ => false,
        }),
{
    let frag = s.substring_ascii(from, to);
    let flen = frag.unicode_len();
    let mut a: usize = 0;
    while a < flen && frag.get_char(a) == ' '
        invariant
            a <= flen,
            flen == frag@.len(),
            skip_spaces(frag@, 0) == skip_spaces(frag@, a as nat),
        decreases flen - a,
    {
        a += 1;
    }
    let mut b: usize = flen;
    while b > 0 && frag.get_char(b - 1) == ' '
        invariant
            b <= flen,
            flen == frag@.len(),
            rskip_spaces(frag@, flen as nat) == rskip_spaces(frag@, b as nat),
        decreases b,
    {
        b -= 1;
    }
    proof {
        assert(a == skip_spaces(frag@, 0));
        assert(b == rskip_spaces(frag@, flen as nat));
    }
    if a > b {
        proof {
            assert(trimmed(frag@) =~= Seq::<char>::empty());
        }
        return None;
    }
    let t = frag.substring_ascii(a, b);
    proof {
        assert(t@ == trimmed(frag@));
    }
    let tlen = t.unicode_len();
    let j = find_char(t, 0, '=');
    if j == tlen {
        return None;
    }
    let key = t.substring_ascii(0, j).to_owned();
    let value = t.substring_ascii(j + 1, tlen).to_owned();
    Some(CookiePair { key, value })
}

/// All key=value pairs of the cookie line, in order.
fn collect_pairs(raw: &str) -> (pairs: Vec<CookiePair>)
    requires
        raw.is_ascii(),
    ensures
        pair_views(pairs@) == cookie_pairs(raw@),
{
    let len = raw.unicode_len();
    let mut pairs: Vec<CookiePair> = Vec::new();
    let mut pos: usize = 0;
    let mut done = false;
    proof {
        assert(pair_views(pairs@) =~= Seq::<PairModel>::empty());
    }
    while !done
        invariant
            pos <= len,
            len == raw@.len(),
            raw.is_ascii(),
            !done ==> pair_views(pairs@) + pairs_from(split_from(raw@, pos as nat))
                == cookie_pairs(raw@),
            done ==> pair_views(pairs@) == cookie_pairs(raw@),
        decreases len - pos, (if done { 0int } else { 1int }),
    {
        let j = find_char(raw, pos, ';');
        proof {
            lemma_find_at(raw@, pos as nat, ';');
        }
        let ghost frag = raw@.subrange(pos as int, j as int);
        let ghost before = pair_views(pairs@);
        let parsed = parse_fragment(raw, pos, j);
        match parsed {
            Some(cp) => {
                pairs.push(cp);
                proof {
                    assert(pair_views(pairs@) =~= before.push(cp@));
                }
            },
            None => {},
        }
        proof {
            let rest = split_from(raw@, pos as nat);
            assert(pairs_from(Seq::<Seq<char>>::empty()) =~= Seq::<PairModel>::empty());
            if j == len {
                assert(rest =~= seq![frag]);
                assert(rest[0] == frag);
                assert(rest.drop_first() =~= Seq::<Seq<char>>::empty());
                match pair_of(frag) {
                    Some(pm) => {
                        assert(pairs_from(rest) == seq![pm] + pairs_from(rest.drop_first()));
                        assert(pairs_from(rest) =~= seq![pm]);
                        assert(before + seq![pm] =~= pair_views(pairs@));
                    },
                    None => {
                        assert(pairs_from(rest) == pairs_from(rest.drop_first()));
                        assert(before + pairs_from(rest) =~= pair_views(pairs@));
                    },
                }
            } else {
                let tail = split_from(raw@, j as nat + 1);
                assert(rest == seq![frag] + tail);
                assert(rest[0] == frag);
                assert(rest.drop_first() =~= tail);
                match pair_of(frag) {
                    Some(pm) => {
                        assert(pairs_from(rest) == seq![pm] + pairs_from(rest.drop_first()));
                        assert(pairs_from(rest) =~= seq![pm] + pairs_from(tail));
                        assert(before.push(pm) + pairs_from(tail) =~= before + pairs_from(rest));
                    },
                    None => {
                        assert(pairs_from(rest) == pairs_from(rest.drop_first()));
                        assert(pairs_from(rest) == pairs_from(tail));
                    },
                }
            }
        }
        if j == len {
            done = true;
        } else {
            pos = j + 1;
        }
    }
    pairs
}

/// The value of the first pair with the given key.
fn lookup_value(pairs: &Vec<CookiePair>, key: &String) -> (r: Option<String>)
    ensures
        (match (r, lookup(pair_views(pairs@), key@)) {
            (Some(v), Some(vm)) => v@ == vm,
            (None, None) => true,
            _ => false,
        }),
{
    let ghost all = pair_views(pairs@);
    let mut j: usize = 0;
    proof {
        assert(all.skip(0) =~= all);
    }
    while j < pairs.len()
        invariant
            j <= pairs.len(),
            all == pair_views(pairs@),
            lookup(all, key@) == lookup(all.skip(j as int), key@),
        decreases pairs.len() - j,
    {
        proof {
            assert(all.skip(j as int)[0] == pairs@[j as int]@);
            assert(all.skip(j as int).drop_first() =~= all.skip(j as int + 1));
        }
        let row = &pairs[j];
        if row.key == *key {
            return Some(row.value.clone());
        }
        j += 1;
    }
    proof {
        assert(all.skip(pairs@.len() as int) =~= Seq::<PairModel>::empty());
    }
    None
}

/// `decompose`: validates and decomposes a raw credential string. The
/// fields come back exactly as `decompose_spec` says; the first missing
/// sub-token, in the required order, is the error.
pub fn decompose(raw: &str) -> (r: Result<CredentialFields, CookieError>)
    ensures
        r is Ok <==> decompose_spec(raw@) is Ok,
        (match (r, decompose_spec(raw@)) {
            (Ok(c), Ok(cm)) => c@ == cm,
            (Err(e), Err(em)) => e == em,
            _ => false,
        }),
{
    if !raw.is_ascii() {
        return Err(CookieError::NotAscii);
    }
    let pairs = collect_pairs(raw);
    let ltuid = match lookup_value(&pairs, &String::from_str("ltuid")) {
        Some(v) => v,
        None => {
            return Err(CookieError::MissingLtuid);
        },
    };
    let ltoken = match lookup_value(&pairs, &String::from_str("ltoken")) {
        Some(v) => v,
        None => {
            return Err(CookieError::MissingLtoken);
        },
    };
    let cookie_token = match lookup_value(&pairs, &String::from_str("cookie_token")) {
        Some(v) => v,
        None => {
            return Err(CookieError::MissingCookieToken);
        },
    };
    let account_id = match lookup_value(&pairs, &String::from_str("account_id")) {
        Some(v) => v,
        None => {
            return Err(CookieError::MissingAccountId);
        },
    };
    let lang = match lookup_value(&pairs, &String::from_str("mi18nLang")) {
        Some(v) => v,
        None => String::from_str("en-us"),
    };
    Ok(CredentialFields { ltuid, ltoken, cookie_token, account_id, lang })
}

} // verus!
