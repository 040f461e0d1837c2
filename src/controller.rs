use vstd::prelude::*;

use crate::game::Game;
use crate::store::{stored_at, Store};

verus! {

/// The HTTP status a request ends with.
#[derive(Debug, Clone, Copy, PartialEq, Eq, Structural)]
pub enum Status {
    Success,
    Created,
    NotFound,
    BadRequest,
}

impl Status {
    /// The numeric HTTP code of a status.
    pub open spec fn spec_code(self) -> u16 {
        match self {
            Status::Success => 200,
            Status::Created => 201,
            Status::NotFound => 404,
            Status::BadRequest => 400,
        }
    }

    /// Returns the numeric HTTP code of this status.
    pub fn code(&self) -> (r: u16)
        ensures
            r == self.spec_code(),
    {
        match self {
            Status::Success => 200,
            Status::Created => 201,
            Status::NotFound => 404,
            Status::BadRequest => 400,
        }
    }
}

/// An ASCII decimal digit.
pub open spec fn is_digit(c: char) -> bool {
    '0' <= c && c <= '9'
}

/// Every character of `s` is an ASCII decimal digit.
pub open spec fn all_digits(s: Seq<char>) -> bool {
    forall|i: int| 0 <= i < s.len() ==> is_digit(#[trigger] s[i])
}

/// The number that a string of decimal digits spells.
pub open spec fn decimal_value(s: Seq<char>) -> int
    decreases s.len(),
{
    if s.len() == 0 {
        0
    } else {
        10 * decimal_value(s.drop_last()) + (s.last() as int - '0' as int)
    }
}

/// The digits of an identifier in a path, after an optional leading `+`.
pub open spec fn unsigned_part(s: Seq<char>) -> Seq<char> {
    if s.len() > 0 && s[0] == '+' {
        s.drop_first()
    } else {
        s
    }
}

/// The identifier that a path segment names: one or more decimal digits,
/// optionally after a `+`, whose value is at most 255.
pub open spec fn parsed_id(s: Seq<char>) -> Option<u8> {
    let d = unsigned_part(s);
    if d.len() > 0 && all_digits(d) && decimal_value(d) <= 255 {
        Some(decimal_value(d) as u8)
    } else {
        None
    }
}

/// A string of digits is worth at least as much as any of its prefixes.
proof fn lemma_prefix_value_le(s: Seq<char>, k: int)
    requires
        all_digits(s),
        0 <= k <= s.len(),
    ensures
        decimal_value(s.subrange(0, k)) <= decimal_value(s),
    decreases s.len(),
{
    if k < s.len() {
        let t = s.drop_last();
        assert(all_digits(t)) by {
            assert forall|i: int| 0 <= i < t.len() implies is_digit(#[trigger] t[i]) by {
                assert(t[i] == s[i]);
            }
        }
        lemma_prefix_value_le(t, k);
        assert(t.subrange(0, k) =~= s.subrange(0, k));
        assert(decimal_value(t) >= 0) by {
            lemma_value_nonneg(t);
        }
        assert(is_digit(s[s.len() - 1]));
    } else {
        assert(s.subrange(0, k) =~= s);
    }
}

proof fn lemma_value_nonneg(s: Seq<char>)
    requires
        all_digits(s),
    ensures
        decimal_value(s) >= 0,
    decreases s.len(),
{
    if s.len() > 0 {
        let t = s.drop_last();
        assert(all_digits(t)) by {
            assert forall|i: int| 0 <= i < t.len() implies is_digit(#[trigger] t[i]) by {
                assert(t[i] == s[i]);
            }
        }
        lemma_value_nonneg(t);
        assert(is_digit(s[s.len() - 1]));
    }
}

/// Reads the identifier in a path segment, as `u8`'s `FromStr` does.
pub fn parse_id(text: &str) -> (r: Option<u8>)
    ensures
        r == parsed_id(text@),
{
    let mut chars: Vec<char> = Vec::new();
    for c in it: text.chars()
        invariant
            chars@ == it.seq().take(it.index()),
    {
        chars.push(c);
    }
    assert(chars@ =~= text@);
    let start: usize = if chars.len() > 0 && chars[0] == '+' {
        1
    } else {
        0
    };
    let ghost d = unsigned_part(text@);
    assert(d =~= chars@.subrange(start as int, chars.len() as int));
    if start >= chars.len() {
        return None;
    }
    let mut value: u16 = 0;
    let mut i: usize = start;
    while i < chars.len()
        invariant
            start <= i <= chars.len(),
            start < chars.len(),
            d == unsigned_part(text@),
            d == chars@.subrange(start as int, chars.len() as int),
            all_digits(d.subrange(0, i - start)),
            value == decimal_value(d.subrange(0, i - start)),
            value <= 255,
        decreases chars.len() - i,
    {
        let c = chars[i];
        if !('0' <= c && c <= '9') {
            assert(!is_digit(d[i - start]));
            return None;
        }
        let next: u16 = value * 10 + (c as u16 - '0' as u16);
        proof {
            let p = d.subrange(0, i - start + 1);
            assert(p.drop_last() =~= d.subrange(0, i - start));
            assert(p.last() == c);
            assert(decimal_value(p) == next);
            assert(all_digits(p)) by {
                assert forall|j: int| 0 <= j < p.len() implies is_digit(#[trigger] p[j]) by {
                    if j < p.len() - 1 {
                        assert(p[j] == d.subrange(0, i - start)[j]);
                    }
                }
            }
        }
        if next > 255 {
            proof {
                if all_digits(d) {
                    lemma_prefix_value_le(d, i - start + 1);
                    assert(decimal_value(d) > 255);
                }
            }
            return None;
        }
        value = next;
        i = i + 1;
    }
    assert(d.subrange(0, i - start) =~= d);
    Some(value as u8)
}

/// `GET /games`: every game held. The status is always `Success`.
pub fn get_games<S: Store<Game>>(store: &S) -> (r: Vec<&Game>)
    ensures
        r@.len() == store.contents().len(),
        r@.unref().to_set() == store.contents().values(),
{
    store.get_all()
}

/// `GET /games/{id}`: the game stored under the identifier in `path`;
/// `NotFound` when none is, `BadRequest` when `path` names no identifier.
pub fn get_game_by_id<'a, S: Store<Game>>(path: &str, store: &'a S) -> (r: Result<&'a Game, Status>)
    ensures
        match parsed_id(path@) {
            None => r == Err::<&Game, Status>(Status::BadRequest),
            Some(id) => match r {
                Ok(g) => stored_at(store.contents(), id) == Some(*g),
                Err(s) => stored_at(store.contents(), id) is None && s == Status::NotFound,
            },
        },
{
    match parse_id(path) {
        None => Err(Status::BadRequest),
        Some(id) => match store.get(&id) {
            None => Err(Status::NotFound),
            Some(game) => Ok(game),
        },
    }
}

/// `PUT /games`: stores `game` under its identifier. `Created` when the
/// identifier was free, `Success` when an earlier game there was replaced.
pub fn update_game_by_id<S: Store<Game>>(game: Game, store: &mut S) -> (r: Status)
    ensures
        final(store).contents() == old(store).contents().insert(game.id, game),
        r == (if old(store).contents().contains_key(game.id) {
            Status::Success
        } else {
            Status::Created
        }),
{
    match store.save(game) {
        None => Status::Created,
        Some(_) => Status::Success,
    }
}

/// `DELETE /games/{id}`: removes the game stored under the identifier in
/// `path`. `Success` when one was removed, `NotFound` when none was there,
/// `BadRequest` (and nothing changed) when `path` names no identifier.
pub fn delete_game_by_id<S: Store<Game>>(path: &str, store: &mut S) -> (r: Status)
    ensures
        match parsed_id(path@) {
            None => r == Status::BadRequest && final(store).contents() == old(store).contents(),
            Some(id) => {
                &&& final(store).contents() == old(store).contents().remove(id)
                &&& r == (if old(store).contents().contains_key(id) {
                    Status::Success
                } else {
                    Status::NotFound
                })
            },
        },
{
    match parse_id(path) {
        None => Status::BadRequest,
        Some(id) => match store.delete(&id) {
            None => Status::NotFound,
            Some(_) => Status::Success,
        },
    }
}

} // verus!
