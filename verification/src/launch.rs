//! The settings a web page address starts the viewer with: whether the
//! interface is reduced (`zen`) and which URL to load (`url`).

use vstd::prelude::*;
use crate::query::{split_char, split_once_char, split_once_eq};
use crate::source::DataSource;
use crate::text::{chars_of, same_chars, string_from_chars};

verus! {

/// The key and value of one `key=value` piece of the query: the text before
/// the first `=` and the text after it up to the next `=`; `None` without
/// any `=`.
pub open spec fn piece_kv(piece: Seq<char>) -> Option<(Seq<char>, Seq<char>)> {
    match split_once_char(piece, '=') {
        Some((k, rest)) => Some(
            (
                k,
                match split_once_char(rest, '=') {
                    Some((v, _)) => v,
                    None => rest,
                },
            ),
        ),
        None => None,
    }
}

/// The value the last piece with key `key` gives it, if any.
pub open spec fn last_value(pieces: Seq<Seq<char>>, key: Seq<char>) -> Option<Seq<char>>
    decreases pieces.len(),
{
    if pieces.len() == 0 {
        None
    } else {
        match piece_kv(pieces.last()) {
            Some((k, v)) => if k == key {
                Some(v)
            } else {
                last_value(pieces.drop_last(), key)
            },
            None => last_value(pieces.drop_last(), key),
        }
    }
}

/// The pieces of the query part of a page address (`search` with its
/// leading `?`): nothing when it is empty, else the text after its first
/// character split at `&`.
pub open spec fn launch_pieces(search: Seq<char>) -> Seq<Seq<char>> {
    if search.len() == 0 {
        seq![]
    } else {
        split_char(search.skip(1), '&')
    }
}

/// What the page address asks for.
#[derive(Debug, Clone)]
pub struct LaunchSettings {
    /// Start with the reduced interface.
    pub zen: bool,
    /// Load this URL at start.
    pub source: Option<DataSource>,
}

fn piece_kv_exec(piece: &Vec<char>) -> (r: Option<(Vec<char>, Vec<char>)>)
    ensures
        match r {
            Some((k, v)) => piece_kv(piece@) == Some((k@, v@)),
            None => piece_kv(piece@) is None,
        },
{
    match split_once_eq(piece) {
        Some((k, rest)) => match split_once_eq(&rest) {
            Some((v, _)) => Some((k, v)),
            None => Some((k, rest)),
        },
        None => None,
    }
}

/// `o` holds the value `v` describes.
pub open spec fn holds(o: Option<Vec<char>>, v: Option<Seq<char>>) -> bool {
    match o {
        Some(x) => v == Some(x@),
        None => v is None,
    }
}

/// Takes in the next piece: its value becomes the `zen` or `url` value when
/// its key is one of those.
fn take_piece(
    piece: &Vec<char>,
    zen: &mut Option<Vec<char>>,
    url: &mut Option<Vec<char>>,
    Ghost(prev): Ghost<Seq<Seq<char>>>,
)
    requires
        holds(*old(zen), last_value(prev, "zen"@)),
        holds(*old(url), last_value(prev, "url"@)),
    ensures
        holds(*final(zen), last_value(prev.push(piece@), "zen"@)),
        holds(*final(url), last_value(prev.push(piece@), "url"@)),
{
    let ghost all = prev.push(piece@);
    assert(all.drop_last() =~= prev);
    assert(all.last() == piece@);
    proof {
        reveal_strlit("zen");
        reveal_strlit("url");
    }
    assert("zen"@ != "url"@) by {
        assert("zen"@[0] != "url"@[0]);
    }
    let zen_key = chars_of("zen");
    let url_key = chars_of("url");
    match piece_kv_exec(piece) {
        Some((k, v)) => {
            if same_chars(&k, &zen_key) {
                *zen = Some(v);
            } else if same_chars(&k, &url_key) {
                *url = Some(v);
            }
        },
        None => {},
    }
}

/// The settings of the query part `search` of the page address (as
/// `location.search` gives it, starting with `?`): `zen` when the last
/// `zen` value is `true`, and a URL source when there is a `url` value (the
/// last one).
pub fn launch_settings(search: &str) -> (r: LaunchSettings)
    ensures
        r.zen == (last_value(launch_pieces(search@), "zen"@) == Some("true"@)),
        match last_value(launch_pieces(search@), "url"@) {
            Some(u) => r.source matches Some(DataSource::Url(s)) && s@ == u,
            None => r.source is None,
        },
{
    let all = chars_of(search);
    if all.len() == 0 {
        return LaunchSettings { zen: false, source: None };
    }
    let ghost body = all@.skip(1);
    let mut zen: Option<Vec<char>> = None;
    let mut url: Option<Vec<char>> = None;
    let mut current: Vec<char> = Vec::new();
    let mut i: usize = 1;
    assert(body.take(0) =~= Seq::<char>::empty());
    while i < all.len()
        invariant
            1 <= i <= all.len(),
            body == all@.skip(1),
            split_char(body.take(i - 1), '&').len() >= 1,
            current@ == split_char(body.take(i - 1), '&').last(),
            holds(zen, last_value(split_char(body.take(i - 1), '&').drop_last(), "zen"@)),
            holds(url, last_value(split_char(body.take(i - 1), '&').drop_last(), "url"@)),
        decreases all.len() - i,
    {
        let ghost pre = split_char(body.take(i - 1), '&');
        assert(body.take(i as int).drop_last() =~= body.take(i - 1));
        assert(body.take(i as int).last() == all@[i as int]);
        if all[i] == '&' {
            take_piece(&current, &mut zen, &mut url, Ghost(pre.drop_last()));
            proof {
                let post = split_char(body.take(i as int), '&');
                assert(pre.drop_last().push(pre.last()) =~= pre);
                assert(post == pre.push(Seq::<char>::empty()));
                assert(post.drop_last() =~= pre);
            }
            current = Vec::new();
        } else {
            current.push(all[i]);
            proof {
                let post = split_char(body.take(i as int), '&');
                assert(post == pre.update(pre.len() - 1, pre.last().push(all@[i as int])));
                assert(post.drop_last() =~= pre.drop_last());
            }
        }
        i = i + 1;
    }
    let ghost pieces = split_char(body.take(i - 1), '&');
    take_piece(&current, &mut zen, &mut url, Ghost(pieces.drop_last()));
    proof {
        assert(pieces.drop_last().push(pieces.last()) =~= pieces);
        assert(body.take(i - 1) =~= body);
    }
    let zen_on = match &zen {
        Some(z) => same_chars(z, &chars_of("true")),
        None => false,
    };
    let source = match url {
        Some(u) => Some(DataSource::Url(string_from_chars(&u))),
        None => None,
    };
    LaunchSettings { zen: zen_on, source }
}

} // verus!
