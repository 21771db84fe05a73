//! Reading the parameters of a page address's query string.

use vstd::prelude::*;
use crate::text::{chars_of, strip_prefixes, string_from_chars, trim_prefixes};

verus! {

/// What `urlencoding::decode` returns for this text: the percent-decoded
/// text, or nothing when the decoded bytes are not valid UTF-8.
pub uninterp spec fn url_decoded(s: Seq<char>) -> Option<Seq<char>>;

/// Calls `urlencoding::decode`, which replaces each `%xx` escape by its
/// byte and fails when the result is not UTF-8. Text without any `%` comes
/// back unchanged.
#[verifier::external_body]
fn url_decode(s: &str) -> (r: Option<String>)
    ensures
        r matches Some(d) ==> url_decoded(s@) == Some(d@),
        r is None ==> url_decoded(s@) is None,
        r is None ==> s@.contains('%'),
        r matches Some(d) ==> (!s@.contains('%') ==> d@ == s@),
{
    urlencoding::decode(s).ok().map(|c| c.into_owned())
}

/// `s` split at every `c` (as `str::split` does: `n` separators give `n + 1`
/// pieces, possibly empty).
pub open spec fn split_char(s: Seq<char>, c: char) -> Seq<Seq<char>>
    decreases s.len(),
{
    if s.len() == 0 {
        seq![Seq::<char>::empty()]
    } else {
        let rest = split_char(s.drop_last(), c);
        if s.last() == c {
            rest.push(Seq::<char>::empty())
        } else {
            rest.update(rest.len() - 1, rest.last().push(s.last()))
        }
    }
}

/// `s` split at its first `c`, if it has one.
pub open spec fn split_once_char(s: Seq<char>, c: char) -> Option<(Seq<char>, Seq<char>)>
    decreases s.len(),
{
    if s.len() == 0 {
        None
    } else if s[0] == c {
        Some((Seq::<char>::empty(), s.skip(1)))
    } else {
        match split_once_char(s.skip(1), c) {
            Some((a, b)) => Some((seq![s[0]] + a, b)),
            None => None,
        }
    }
}

/// The decoded text, or empty text when decoding fails.
pub open spec fn decoded_or_empty(s: Seq<char>) -> Seq<char> {
    match url_decoded(s) {
        Some(d) => d,
        None => Seq::<char>::empty(),
    }
}

/// The parameters the `key=value` pieces set, later pieces overriding
/// earlier ones; pieces without `=` are skipped.
pub open spec fn params_of(pieces: Seq<Seq<char>>) -> Map<Seq<char>, Seq<char>>
    decreases pieces.len(),
{
    if pieces.len() == 0 {
        Map::empty()
    } else {
        let m = params_of(pieces.drop_last());
        match split_once_char(pieces.last(), '=') {
            Some((k, v)) => m.insert(decoded_or_empty(k), decoded_or_empty(v)),
            None => m,
        }
    }
}

/// The parameters of a query string: leading `?`s are dropped, the rest is
/// split at `&`, and each piece is split at its first `=` into a
/// percent-decoded key and value.
pub open spec fn search_params_of(search: Seq<char>) -> Map<Seq<char>, Seq<char>> {
    params_of(split_char(strip_prefixes(search, seq!['?']), '&'))
}

/// The map a list of distinct-key pairs stands for.
pub open spec fn pairs_map(pairs: Seq<(String, String)>) -> Map<Seq<char>, Seq<char>> {
    Map::new(
        |k: Seq<char>| exists|i: int| 0 <= i < pairs.len() && (#[trigger] pairs[i]).0@ == k,
        |k: Seq<char>| pairs[choose|i: int| 0 <= i < pairs.len() && (#[trigger] pairs[i]).0@ == k].1@,
    )
}

/// No key occurs twice.
pub open spec fn distinct_keys(pairs: Seq<(String, String)>) -> bool {
    forall|i: int, j: int| 0 <= i < j < pairs.len() ==> (#[trigger] pairs[i]).0@ != (#[trigger] pairs[j]).0@
}

pub(crate) fn split_once_eq(s: &Vec<char>) -> (r: Option<(Vec<char>, Vec<char>)>)
    ensures
        match r {
            Some((a, b)) => split_once_char(s@, '=') == Some((a@, b@)),
            None => split_once_char(s@, '=') is None,
        },
{
    let mut i: usize = 0;
    assert(s@.skip(0) =~= s@);
    assert forall|a: Seq<char>| s@.take(0) + a =~= a by {}
    while i < s.len()
        invariant
            i <= s.len(),
            forall|j: int| 0 <= j < i ==> s@[j] != '=',
            split_once_char(s@, '=') == (match split_once_char(s@.skip(i as int), '=') {
                Some((a, b)) => Some((s@.take(i as int) + a, b)),
                None => None,
            }),
        decreases s.len() - i,
    {
        if s[i] == '=' {
            let mut a: Vec<char> = Vec::new();
            let mut b: Vec<char> = Vec::new();
            let mut k: usize = 0;
            while k < i
                invariant
                    k <= i < s.len(),
                    a@ == s@.take(k as int),
                decreases i - k,
            {
                a.push(s[k]);
                k = k + 1;
                assert(a@ =~= s@.take(k as int));
            }
            k = i + 1;
            while k < s.len()
                invariant
                    i + 1 <= k <= s.len(),
                    b@ == s@.subrange(i + 1, k as int),
                decreases s.len() - k,
            {
                b.push(s[k]);
                k = k + 1;
                assert(b@ =~= s@.subrange(i + 1, k as int));
            }
            let ghost t = s@.skip(i as int);
            assert(t[0] == '=');
            assert(t.skip(1) =~= b@);
            assert(s@.take(i as int) + Seq::<char>::empty() =~= a@);
            return Some((a, b));
        }
        let ghost t = s@.skip(i as int);
        assert(t.skip(1) =~= s@.skip(i + 1));
        assert forall|a: Seq<char>| s@.take(i as int) + (seq![t[0]] + a) =~= s@.take(i + 1) + a by {
            assert(s@.take(i + 1) =~= s@.take(i as int).push(t[0]));
        }
        i = i + 1;
    }
    assert(s@.skip(i as int) =~= Seq::<char>::empty());
    None
}

fn decode_or_empty(s: &Vec<char>) -> (r: String)
    ensures
        r@ == decoded_or_empty(s@),
{
    let t = string_from_chars(s);
    match url_decode(t.as_str()) {
        Some(d) => d,
        None => String::new(),
    }
}

fn add_param(out: &mut Vec<(String, String)>, piece: &Vec<char>)
    requires
        distinct_keys(old(out)@),
    ensures
        distinct_keys(final(out)@),
        pairs_map(final(out)@) == (match split_once_char(piece@, '=') {
            Some((k, v)) => pairs_map(old(out)@).insert(decoded_or_empty(k), decoded_or_empty(v)),
            None => pairs_map(old(out)@),
        }),
{
    let kv = split_once_eq(piece);
    match kv {
        None => {},
        Some((k, v)) => {
            let key = decode_or_empty(&k);
            let value = decode_or_empty(&v);
            let kc = chars_of(key.as_str());
            let ghost before = out@;
            let mut i: usize = 0;
            while i < out.len()
                invariant
                    i <= out@.len(),
                    out@ == before,
                    before == old(out)@,
                    distinct_keys(before),
                    kc@ == key@,
                    key@ == decoded_or_empty(k@),
                    value@ == decoded_or_empty(v@),
                    split_once_char(piece@, '=') == Some((k@, v@)),
                    forall|j: int| 0 <= j < i ==> (#[trigger] out@[j]).0@ != key@,
                decreases out.len() - i,
            {
                let ek = chars_of(out[i].0.as_str());
                if crate::text::same_chars(&ek, &kc) {
                    let ghost old_map = pairs_map(before);
                    out.set(i, (key, value));
                    proof {
                        let m = pairs_map(out@);
                        assert forall|x: int| 0 <= x < out@.len() implies (#[trigger] out@[x]).0@ == before[x].0@ by {
                            if x == i {
                                assert(before[x].0@ == key@);
                            }
                        }
                        assert forall|j: int, l: int| 0 <= j < l < out@.len()
                            implies (#[trigger] out@[j]).0@ != (#[trigger] out@[l]).0@ by {
                            assert(out@[j].0@ == before[j].0@);
                            assert(out@[l].0@ == before[l].0@);
                            assert(before[j].0@ != before[l].0@);
                        }
                        assert(m =~= old_map.insert(kc@, value@)) by {
                            assert forall|q: Seq<char>| #[trigger] m.dom().contains(q)
                                == old_map.insert(kc@, value@).dom().contains(q) by {
                                if old_map.dom().contains(q) {
                                    let w = choose|w: int| 0 <= w < before.len() && (#[trigger] before[w]).0@ == q;
                                    assert(out@[w].0@ == q);
                                }
                                if m.dom().contains(q) {
                                    let w = choose|w: int| 0 <= w < out@.len() && (#[trigger] out@[w]).0@ == q;
                                    if w != i {
                                        assert(before[w].0@ == q);
                                    }
                                }
                            }
                            assert forall|q: Seq<char>| #[trigger] m.dom().contains(q)
                                implies m[q] == old_map.insert(kc@, value@)[q] by {
                                let w = choose|w: int| 0 <= w < out@.len() && (#[trigger] out@[w]).0@ == q;
                                if q == kc@ {
                                    assert(out@[i as int].0@ == q);
                                    if w != i {
                                        if w < i {
                                            assert(out@[w].0@ != out@[i as int].0@);
                                        } else {
                                            assert(out@[i as int].0@ != out@[w].0@);
                                        }
                                    }
                                } else {
                                    assert(w != i);
                                    assert(before[w].0@ == q);
                                    let w2 = choose|w2: int| 0 <= w2 < before.len() && (#[trigger] before[w2]).0@ == q;
                                    assert(w2 == w);
                                }
                            }
                        }
                    }
                    return;
                }
                i = i + 1;
            }
            let ghost old_map = pairs_map(before);
            out.push((key, value));
            proof {
                let m = pairs_map(out@);
                let n = before.len() as int;
                assert(out@[n].0@ == kc@);
                assert forall|j: int, l: int| 0 <= j < l < out@.len()
                    implies (#[trigger] out@[j]).0@ != (#[trigger] out@[l]).0@ by {
                    if l < n {
                        assert(before[j].0@ != before[l].0@);
                    }
                }
                assert(m =~= old_map.insert(kc@, value@)) by {
                    assert forall|q: Seq<char>| #[trigger] m.dom().contains(q)
                        == old_map.insert(kc@, value@).dom().contains(q) by {
                        if old_map.dom().contains(q) {
                            let w = choose|w: int| 0 <= w < before.len() && (#[trigger] before[w]).0@ == q;
                            assert(out@[w].0@ == q);
                        }
                        if m.dom().contains(q) {
                            let w = choose|w: int| 0 <= w < out@.len() && (#[trigger] out@[w]).0@ == q;
                            if w != n {
                                assert(before[w].0@ == q);
                            }
                        }
                    }
                    assert forall|q: Seq<char>| #[trigger] m.dom().contains(q)
                        implies m[q] == old_map.insert(kc@, value@)[q] by {
                        let w = choose|w: int| 0 <= w < out@.len() && (#[trigger] out@[w]).0@ == q;
                        if q == kc@ {
                            assert(w == n);
                        } else {
                            assert(w != n);
                            assert(before[w].0@ == q);
                            let w2 = choose|w2: int| 0 <= w2 < before.len() && (#[trigger] before[w2]).0@ == q;
                            assert(w2 == w);
                        }
                    }
                }
            }
        },
    }
}

/// The parameters of a query string such as `?url=a.ply&zen=true`, as
/// key/value pairs with distinct keys (later settings of a key win).
pub fn parse_search(search: &str) -> (r: Vec<(String, String)>)
    ensures
        distinct_keys(r@),
        pairs_map(r@) == search_params_of(search@),
{
    let s = trim_prefixes(&chars_of(search), &chars_of("?"));
    proof {
        reveal_strlit("?");
    }
    assert("?"@ =~= seq!['?']);
    let mut out: Vec<(String, String)> = Vec::new();
    let mut current: Vec<char> = Vec::new();
    let mut i: usize = 0;
    assert(s@.take(0) =~= Seq::<char>::empty());
    assert(pairs_map(out@) =~= Map::<Seq<char>, Seq<char>>::empty());
    while i < s.len()
        invariant
            i <= s.len(),
            distinct_keys(out@),
            split_char(s@.take(i as int), '&').len() >= 1,
            current@ == split_char(s@.take(i as int), '&').last(),
            pairs_map(out@) == params_of(split_char(s@.take(i as int), '&').drop_last()),
        decreases s.len() - i,
    {
        let ghost pre = split_char(s@.take(i as int), '&');
        assert(s@.take(i + 1).drop_last() =~= s@.take(i as int));
        if s[i] == '&' {
            add_param(&mut out, &current);
            proof {
                let post = split_char(s@.take(i + 1), '&');
                assert(post == pre.push(Seq::<char>::empty()));
                assert(post.drop_last() =~= pre);
                assert(pre.drop_last().push(pre.last()) =~= pre);
            }
            current = Vec::new();
        } else {
            current.push(s[i]);
            proof {
                let post = split_char(s@.take(i + 1), '&');
                assert(post == pre.update(pre.len() - 1, pre.last().push(s@[i as int])));
                assert(post.drop_last() =~= pre.drop_last());
            }
        }
        i = i + 1;
    }
    add_param(&mut out, &current);
    proof {
        let all = split_char(s@.take(i as int), '&');
        assert(all.drop_last().push(all.last()) =~= all);
        assert(s@.take(i as int) =~= s@);
    }
    out
}

} // verus!
