//! How a reader of JSON text finds the members of an object.
//!
//! The reader knows strings, brackets and the marks between members, and nothing
//! of who wrote the text or of what the members are for.

use crate::json::{escaped, escaped_char, int_text, lemma_int_text, string_text};
use vstd::prelude::*;

verus! {

/// Where a reader stands: inside how many brackets, whether inside a string, and
/// whether right behind a reverse solidus in it.
pub struct Place {
    pub depth: nat,
    pub quoted: bool,
    pub escaped: bool,
}

/// Outside all brackets and strings.
pub open spec fn outside() -> Place {
    Place { depth: 0, quoted: false, escaped: false }
}

/// Whether `c` ends the name or the value that is being read.
pub open spec fn is_stop(place: Place, c: char) -> bool {
    !place.quoted && place.depth == 0 && (c == ',' || c == ':' || c == '}' || c == ']')
}

/// Where a reader stands after one more character.
pub open spec fn step(place: Place, c: char) -> Place {
    if place.quoted {
        if place.escaped {
            Place { escaped: false, ..place }
        } else if c == '\\' {
            Place { escaped: true, ..place }
        } else if c == '"' {
            Place { quoted: false, ..place }
        } else {
            place
        }
    } else if c == '"' {
        Place { quoted: true, ..place }
    } else if c == '{' || c == '[' {
        Place { depth: place.depth + 1, ..place }
    } else if c == '}' || c == ']' {
        Place { depth: (place.depth - 1) as nat, ..place }
    } else {
        place
    }
}

/// Where a reader stands after a text, unless something in it ends what is being
/// read.
pub open spec fn walk(place: Place, s: Seq<char>) -> Option<Place>
    decreases s.len(),
{
    if s.len() == 0 {
        Some(place)
    } else if is_stop(place, s[0]) {
        None
    } else {
        walk(step(place, s[0]), s.drop_first())
    }
}

/// Whether a text can stand as a value: what is opened in it is closed in it, and
/// no mark between members lies bare in it. Each JSON value is such a text.
pub open spec fn is_token(s: Seq<char>) -> bool {
    s.len() > 0 && walk(outside(), s) == Some(outside())
}

/// How many characters are read before something ends what is being read.
pub open spec fn token_len(place: Place, s: Seq<char>) -> nat
    decreases s.len(),
{
    if s.len() == 0 || is_stop(place, s[0]) {
        0
    } else {
        1 + token_len(step(place, s[0]), s.drop_first())
    }
}

/// A member of an object: its name as it is written between the quotation marks,
/// and the text of its value.
#[verifier::ext_equal]
pub struct Member {
    pub name: Seq<char>,
    pub value: Seq<char>,
}

/// The members that a text holds up to the brace that closes the object and the
/// text, if it can be read so.
pub open spec fn read_members(s: Seq<char>) -> Option<Seq<Member>>
    decreases s.len(),
{
    let k = token_len(outside(), s);
    if k < 2 || k >= s.len() || s[0] != '"' || s[k as int] != ':' {
        None
    } else {
        let rest = s.skip(k as int + 1);
        let v = token_len(outside(), rest);
        if v == 0 || v >= rest.len() {
            None
        } else {
            let member = Member { name: s.subrange(1, k - 1), value: rest.take(v as int) };
            if rest[v as int] == '}' {
                if rest.len() == v + 1 {
                    Some(seq![member])
                } else {
                    None
                }
            } else if rest[v as int] == ',' {
                match read_members(rest.skip(v as int + 1)) {
                    Some(more) => Some(seq![member] + more),
                    None => None,
                }
            } else {
                None
            }
        }
    }
}

/// The members of the object that a text is, in order, if it is one that has
/// members.
pub open spec fn read_object(text: Seq<char>) -> Option<Seq<Member>> {
    if text.len() > 0 && text[0] == '{' {
        read_members(text.skip(1))
    } else {
        None
    }
}

/// A reader goes through two texts as through the one and then the other.
pub proof fn lemma_walk_concat(place: Place, a: Seq<char>, b: Seq<char>)
    requires
        walk(place, a) is Some,
    ensures
        walk(place, a + b) == walk(walk(place, a)->0, b),
        token_len(place, a + b) == a.len() + token_len(walk(place, a)->0, b),
    decreases a.len(),
{
    if a.len() == 0 {
        assert(a + b =~= b);
    } else {
        assert((a + b)[0] == a[0]);
        assert((a + b).drop_first() =~= a.drop_first() + b);
        lemma_walk_concat(step(place, a[0]), a.drop_first(), b);
    }
}

/// What can be read outside all brackets can be read inside some.
pub proof fn lemma_walk_deeper(place: Place, a: Seq<char>, depth: nat)
    requires
        walk(place, a) is Some,
    ensures
        walk(Place { depth: place.depth + depth, ..place }, a) == Some(
            Place { depth: walk(place, a)->0.depth + depth, ..walk(place, a)->0 },
        ),
    decreases a.len(),
{
    if a.len() > 0 {
        lemma_walk_deeper(step(place, a[0]), a.drop_first(), depth);
        let deeper = Place { depth: place.depth + depth, ..place };
        let next = step(place, a[0]);
        assert(step(deeper, a[0]) == (Place { depth: next.depth + depth, ..next }));
    }
}

/// A text without quotation marks, brackets and stops moves a reader nowhere.
proof fn lemma_walk_plain(place: Place, a: Seq<char>)
    requires
        !place.escaped,
        forall|i: int|
            0 <= i < a.len() ==> #[trigger] a[i] != '"' && a[i] != '\\' && a[i] != '{' && a[i]
                != '[' && a[i] != '}' && a[i] != ']' && a[i] != ',' && a[i] != ':',
    ensures
        walk(place, a) == Some(place),
    decreases a.len(),
{
    if a.len() > 0 {
        assert(a[0] != '"');
        assert forall|i: int| 0 <= i < a.drop_first().len() implies #[trigger] a.drop_first()[i]
            == a[i + 1] by {
        }
        lemma_walk_plain(place, a.drop_first());
    }
}

proof fn lemma_walk_escaped_char(place: Place, c: char)
    requires
        place.quoted,
        !place.escaped,
    ensures
        walk(place, escaped_char(c)) == Some(place),
{
    let e = escaped_char(c);
    if e.len() == 1 {
        lemma_walk_name(place, e);
    } else {
        let behind = e.skip(2);
        reveal_with_fuel(walk, 3);
        assert(e =~= seq!['\\', e[1]] + behind);
        assert(seq!['\\', e[1]].drop_first() =~= seq![e[1]]);
        assert(walk(place, seq!['\\', e[1]]) == Some(place));
        lemma_walk_name(place, behind);
        lemma_walk_concat(place, seq!['\\', e[1]], behind);
    }
}

proof fn lemma_walk_escaped(place: Place, s: Seq<char>)
    requires
        place.quoted,
        !place.escaped,
    ensures
        walk(place, escaped(s)) == Some(place),
    decreases s.len(),
{
    if s.len() > 0 {
        let e = escaped_char(s[0]);
        lemma_walk_escaped_char(place, s[0]);
        lemma_walk_escaped(place, s.drop_first());
        lemma_walk_concat(place, e, escaped(s.drop_first()));
    }
}

/// A JSON string can stand as a value.
pub proof fn lemma_string_token(s: Seq<char>)
    ensures
        is_token(string_text(s)),
{
    let quoted = Place { depth: 0, quoted: true, escaped: false };
    reveal_with_fuel(walk, 2);
    assert(walk(outside(), seq!['"']) == Some(quoted));
    assert(walk(quoted, seq!['"']) == Some(outside()));
    lemma_walk_escaped(quoted, s);
    lemma_walk_concat(outside(), seq!['"'], escaped(s));
    lemma_walk_concat(outside(), seq!['"'] + escaped(s), seq!['"']);
}

/// An integer can stand as a value.
pub proof fn lemma_int_token(n: int)
    ensures
        is_token(int_text(n)),
{
    lemma_int_text(n);
    lemma_walk_plain(outside(), int_text(n));
}

/// What is written in front of a value: a mark, then the name in quotation marks,
/// then a colon.
pub open spec fn is_front(front: Seq<char>, name: Seq<char>) -> bool {
    front.len() > 0 && front.skip(1) == seq!['"'] + name + seq!['"', ':']
}

/// Whether a name holds nothing that a string would have to escape.
pub open spec fn is_plain(name: Seq<char>) -> bool {
    forall|i: int| 0 <= i < name.len() ==> #[trigger] name[i] != '"' && name[i] != '\\'
}

proof fn lemma_walk_name(place: Place, name: Seq<char>)
    requires
        is_plain(name),
        place.quoted,
        !place.escaped,
    ensures
        walk(place, name) == Some(place),
    decreases name.len(),
{
    if name.len() > 0 {
        assert(name[0] != '"');
        assert forall|i: int|
            0 <= i < name.drop_first().len() implies #[trigger] name.drop_first()[i]
            == name[i + 1] by {
        }
        lemma_walk_name(place, name.drop_first());
    }
}

/// What a reader finds first: the name and the value that are written first. It
/// goes on behind the comma after them, or ends with the brace after them.
pub proof fn lemma_read_member(
    front: Seq<char>,
    name: Seq<char>,
    value: Seq<char>,
    tail: Seq<char>,
)
    requires
        is_front(front, name),
        is_plain(name),
        is_token(value),
        tail.len() > 0,
    ensures
        tail == seq!['}'] ==> read_members((front + (value + tail)).skip(1)) == Some(
            seq![Member { name, value }],
        ),
        tail[0] == ',' && read_members(tail.skip(1)) is Some ==> read_members(
            (front + (value + tail)).skip(1),
        ) == Some(seq![Member { name, value }] + read_members(tail.skip(1))->0),
{
    let s = (front + (value + tail)).skip(1);
    let key = seq!['"'] + name + seq!['"'];
    let behind = seq![':'] + (value + tail);
    let quoted = Place { depth: 0, quoted: true, escaped: false };
    assert(s =~= key + behind) by {
        assert(front.skip(1) =~= key + seq![':']);
        assert(s =~= front.skip(1) + (value + tail));
    }
    reveal_with_fuel(walk, 2);
    assert(walk(outside(), seq!['"']) == Some(quoted));
    assert(walk(quoted, seq!['"']) == Some(outside()));
    lemma_walk_name(quoted, name);
    lemma_walk_concat(outside(), seq!['"'], name);
    lemma_walk_concat(outside(), seq!['"'] + name, seq!['"']);
    lemma_walk_concat(outside(), key, behind);
    assert(behind[0] == ':');
    let k = token_len(outside(), s);
    assert(k == key.len());
    assert(s[0] == '"');
    assert(s[k as int] == ':');
    assert(s.subrange(1, k - 1) =~= name);
    let rest = s.skip(k as int + 1);
    assert(rest =~= value + tail);
    lemma_walk_concat(outside(), value, tail);
    let v = token_len(outside(), rest);
    if tail[0] == ',' || tail[0] == '}' {
        assert(v == value.len());
        assert(rest[v as int] == tail[0]);
        assert(rest.take(v as int) =~= value);
        assert(rest.skip(v as int + 1) =~= tail.skip(1));
    }
}

/// Whether the members are what a reader finds behind the mark that a text begins
/// with.
#[verifier::opaque]
pub open spec fn reads(text: Seq<char>, members: Seq<Member>) -> bool {
    text.len() > 0 && read_members(text.skip(1)) == Some(members)
}

/// A reader finds the last member.
pub proof fn lemma_reads_last(front: Seq<char>, name: Seq<char>, value: Seq<char>)
    requires
        is_front(front, name),
        is_plain(name),
        is_token(value),
    ensures
        reads(front + (value + seq!['}']), seq![Member { name, value }]),
{
    reveal(reads);
    lemma_read_member(front, name, value, seq!['}']);
}

/// A reader finds one member, and then the others.
pub proof fn lemma_reads_more(
    front: Seq<char>,
    name: Seq<char>,
    value: Seq<char>,
    tail: Seq<char>,
    more: Seq<Member>,
)
    requires
        is_front(front, name),
        is_plain(name),
        is_token(value),
        tail.len() > 0 && tail[0] == ',',
        reads(tail, more),
    ensures
        reads(front + (value + tail), seq![Member { name, value }] + more),
{
    reveal(reads);
    lemma_read_member(front, name, value, tail);
}

/// A reader finds the members of an object.
pub proof fn lemma_reads_object(text: Seq<char>, members: Seq<Member>)
    requires
        text.len() > 0 && text[0] == '{',
        reads(text, members),
    ensures
        read_object(text) == Some(members),
{
    reveal(reads);
}

/// An object can stand as a value.
pub proof fn lemma_object_token(
    front: Seq<char>,
    name: Seq<char>,
    value: Seq<char>,
    tail: Seq<char>,
)
    requires
        is_front(front, name),
        front[0] == '{',
        is_plain(name),
        is_token(value),
        walk(Place { depth: 1, quoted: false, escaped: false }, tail) == Some(outside()),
    ensures
        is_token(front + (value + tail)),
{
    let inside = Place { depth: 1, quoted: false, escaped: false };
    lemma_walk_front(outside(), front, name);
    lemma_walk_deeper(outside(), value, 1);
    lemma_walk_concat(inside, value, tail);
    lemma_walk_concat(outside(), front, value + tail);
}

/// What stands in front of the value of an object's first member leads into the
/// object.
proof fn lemma_walk_front(place: Place, front: Seq<char>, name: Seq<char>)
    requires
        is_front(front, name),
        is_plain(name),
        place == outside() && front[0] == '{' || place.depth == 1 && !place.quoted && !place.escaped
            && front[0] == ',',
    ensures
        walk(place, front) == Some(Place { depth: 1, quoted: false, escaped: false }),
{
    let inside = Place { depth: 1, quoted: false, escaped: false };
    let quoted = Place { depth: 1, quoted: true, escaped: false };
    reveal_with_fuel(walk, 3);
    assert(walk(inside, seq!['"']) == Some(quoted));
    assert(walk(quoted, seq!['"', ':']) == Some(inside)) by {
        assert(seq!['"', ':'].drop_first() =~= seq![':']);
    }
    lemma_walk_name(quoted, name);
    lemma_walk_concat(inside, seq!['"'], name);
    lemma_walk_concat(inside, seq!['"'] + name, seq!['"', ':']);
    assert(front.drop_first() =~= front.skip(1));
    assert(step(place, front[0]) == inside);
}

/// A member behind a comma, and then the brace, close an object.
pub proof fn lemma_walk_last(front: Seq<char>, name: Seq<char>, value: Seq<char>)
    requires
        is_front(front, name),
        front[0] == ',',
        is_plain(name),
        is_token(value),
    ensures
        walk(
            Place { depth: 1, quoted: false, escaped: false },
            front + (value + seq!['}']),
        ) == Some(outside()),
{
    let inside = Place { depth: 1, quoted: false, escaped: false };
    lemma_walk_front(inside, front, name);
    lemma_walk_deeper(outside(), value, 1);
    lemma_walk_brace();
    lemma_walk_concat(inside, value, seq!['}']);
    lemma_walk_concat(inside, front, value + seq!['}']);
}

/// A brace closes an object.
pub proof fn lemma_walk_brace()
    ensures
        walk(Place { depth: 1, quoted: false, escaped: false }, seq!['}']) == Some(outside()),
{
    reveal_with_fuel(walk, 2);
}

} // verus!
