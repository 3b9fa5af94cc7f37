//! Bodies of the requests to the game server.

use vstd::prelude::*;
use vstd::string::StringExecFns;

use crate::text::{append_decimal, append_signed, decimal_text, signed_text};

verus! {

/// Digit of a hexadecimal number, in lower case.
pub open spec fn hex_char(digit: int) -> char {
    if digit < 10 {
        (digit + '0' as int) as char
    } else {
        (digit - 10 + 'a' as int) as char
    }
}

/// How a character is written inside a JSON string.
pub open spec fn escaped(c: char) -> Seq<char> {
    let p = c as int;
    if c == '"' {
        seq!['\\', '"']
    } else if c == '\\' {
        seq!['\\', '\\']
    } else if p == 0x08 {
        seq!['\\', 'b']
    } else if p == 0x09 {
        seq!['\\', 't']
    } else if p == 0x0A {
        seq!['\\', 'n']
    } else if p == 0x0C {
        seq!['\\', 'f']
    } else if p == 0x0D {
        seq!['\\', 'r']
    } else if p < 0x20 {
        seq!['\\', 'u', '0', '0', hex_char(p / 16), hex_char(p % 16)]
    } else {
        seq![c]
    }
}

/// The text with every character as it is written inside a JSON string.
pub open spec fn all_escaped(text: Seq<char>) -> Seq<char>
    decreases text.len(),
{
    if text.len() == 0 {
        Seq::empty()
    } else {
        all_escaped(text.drop_last()) + escaped(text.last())
    }
}

/// A text as a JSON string.
pub open spec fn quoted(text: Seq<char>) -> Seq<char> {
    "\""@ + all_escaped(text) + "\""@
}

/// `serde_json::to_string` of a string: the string in quotes, with quotes,
/// backslashes and control characters escaped.
#[verifier::external_body]
fn quote(text: &str) -> (json: String)
    ensures
        json@ == quoted(text@),
{
    serde_json::to_string(text).unwrap_or_default()
}

/// Two texts are never written as the same JSON string.
pub proof fn quoting_keeps_texts_apart(a: Seq<char>, b: Seq<char>)
    requires
        quoted(a) == quoted(b),
    ensures
        a == b,
{
    reveal_strlit("\"");
    assert(quoted(a).subrange(1, quoted(a).len() - 1) =~= all_escaped(a));
    assert(quoted(b).subrange(1, quoted(b).len() - 1) =~= all_escaped(b));
    lemma_escapes_differ(a, b);
}

/// What is left of a text once the escape of its first character is read.
spec fn rest_escaped(text: Seq<char>) -> Seq<char> {
    all_escaped(text.drop_first())
}

proof fn lemma_escaped_first(text: Seq<char>)
    requires
        text.len() > 0,
    ensures
        all_escaped(text) == escaped(text[0]) + rest_escaped(text),
    decreases text.len(),
{
    if text.len() == 1 {
        assert(text.drop_last() =~= Seq::empty());
        assert(text.drop_first() =~= Seq::empty());
        assert(all_escaped(text) =~= escaped(text[0]) + rest_escaped(text));
    } else {
        lemma_escaped_first(text.drop_last());
        assert(text.drop_last().drop_first() =~= text.drop_first().drop_last());
        assert(text.drop_first().last() == text.last());
        assert(all_escaped(text) =~= escaped(text[0]) + rest_escaped(text));
    }
}

proof fn lemma_hex(i: int, j: int)
    requires
        0 <= i < 16,
        0 <= j < 16,
        hex_char(i) == hex_char(j),
    ensures
        i == j,
{
    assert(hex_char(i) as int == if i < 10 {
        i + 48
    } else {
        i + 87
    });
    assert(hex_char(j) as int == if j < 10 {
        j + 48
    } else {
        j + 87
    });
}

/// A text starts with the escape of one character only.
proof fn lemma_same_escape(x: char, y: char, whole: Seq<char>)
    requires
        escaped(x).len() <= whole.len(),
        escaped(y).len() <= whole.len(),
        forall|i: int| 0 <= i < escaped(x).len() ==> whole[i] == #[trigger] escaped(x)[i],
        forall|i: int| 0 <= i < escaped(y).len() ==> whole[i] == #[trigger] escaped(y)[i],
    ensures
        x == y,
{
    let ex = escaped(x);
    let ey = escaped(y);
    assert(whole[0] == ex[0] && whole[0] == ey[0]);
    if ex.len() > 1 {
        assert(whole[1] == ex[1]);
    }
    if ey.len() > 1 {
        assert(whole[1] == ey[1]);
    }
    if ex.len() == 6 && ey.len() == 6 {
        assert(whole[4] == ex[4] && whole[4] == ey[4]);
        assert(whole[5] == ex[5] && whole[5] == ey[5]);
        let p = x as int;
        let q = y as int;
        lemma_hex(p / 16, q / 16);
        lemma_hex(p % 16, q % 16);
        assert(p == q);
    }
}

proof fn lemma_escapes_differ(a: Seq<char>, b: Seq<char>)
    requires
        all_escaped(a) == all_escaped(b),
    ensures
        a == b,
    decreases a.len(),
{
    if a.len() > 0 && b.len() > 0 {
        lemma_escaped_first(a);
        lemma_escaped_first(b);
        let whole = all_escaped(a);
        let ea = escaped(a[0]);
        let eb = escaped(b[0]);
        assert(forall|i: int| 0 <= i < ea.len() ==> whole[i] == #[trigger] ea[i]);
        assert(forall|i: int| 0 <= i < eb.len() ==> whole[i] == #[trigger] eb[i]);
        assert(a[0] == b[0]) by {
            lemma_same_escape(a[0], b[0], whole);
        }
        assert(rest_escaped(a) =~= whole.skip(ea.len() as int));
        assert(rest_escaped(b) =~= whole.skip(ea.len() as int));
        lemma_escapes_differ(a.drop_first(), b.drop_first());
        assert(a =~= seq![a[0]] + a.drop_first());
        assert(b =~= seq![b[0]] + b.drop_first());
    } else if a.len() > 0 {
        lemma_escaped_first(a);
        assert(all_escaped(b).len() == 0);
    } else if b.len() > 0 {
        lemma_escaped_first(b);
        assert(all_escaped(a).len() == 0);
    } else {
        assert(a =~= b);
    }
}

/// A field of a request: its name and its text.
pub open spec fn text_field(name: Seq<char>, text: Seq<char>) -> Seq<char> {
    "\""@ + name + "\":"@ + quoted(text)
}

fn append_field(body: &mut String, name: &str, text: &str)
    ensures
        final(body)@ == old(body)@ + text_field(name@, text@),
{
    body.append("\"");
    body.append(name);
    body.append("\":");
    body.append(quote(text).as_str());
    assert(body@ =~= old(body)@ + text_field(name@, text@));
}

/// Body that names a player.
pub fn player_body(player_id: &str) -> (body: String)
    ensures
        body@ == "{"@ + text_field("player_id"@, player_id@) + "}"@,
{
    let mut body = String::from_str("{");
    append_field(&mut body, "player_id", player_id);
    body.append("}");
    body
}

/// Body that names a player and an item.
pub fn item_body(player_id: &str, item_id: &str) -> (body: String)
    ensures
        body@ == "{"@ + text_field("item_id"@, item_id@) + ","@ + text_field(
            "player_id"@,
            player_id@,
        ) + "}"@,
{
    let mut body = String::from_str("{");
    append_field(&mut body, "item_id", item_id);
    body.append(",");
    append_field(&mut body, "player_id", player_id);
    body.append("}");
    body
}

/// Body of a purchase.
pub fn purchase_body(player_id: &str, item_id: &str, cost: i32) -> (body: String)
    ensures
        body@ == "{\"cost\":"@ + signed_text(cost as int) + ","@ + text_field("item_id"@, item_id@)
            + ","@ + text_field("player_id"@, player_id@) + "}"@,
{
    let mut body = String::from_str("{\"cost\":");
    append_signed(&mut body, cost as i64);
    body.append(",");
    append_field(&mut body, "item_id", item_id);
    body.append(",");
    append_field(&mut body, "player_id", player_id);
    body.append("}");
    body
}

/// Body with which a walker joins as a champion.
pub fn join_body(name: &str, walker_uuid: &str, champion: &str) -> (body: String)
    ensures
        body@ == "{"@ + text_field("champion"@, champion@) + ","@ + text_field("name"@, name@)
            + ","@ + text_field("walker_uuid"@, walker_uuid@) + "}"@,
{
    let mut body = String::from_str("{");
    append_field(&mut body, "champion", champion);
    body.append(",");
    append_field(&mut body, "name", name);
    body.append(",");
    append_field(&mut body, "walker_uuid", walker_uuid);
    body.append("}");
    body
}

/// Body of a heartbeat.
pub fn heartbeat_body(player_id: &str) -> (body: String)
    ensures
        body@ == "{"@ + text_field("p_player_id"@, player_id@) + "}"@,
{
    let mut body = String::from_str("{");
    append_field(&mut body, "p_player_id", player_id);
    body.append("}");
    body
}

/// Body that sets a planned route. `meters`, where given, is the number of
/// meters already walked, in decimal notation.
pub fn route_body(player_id: &str, route: &str, meters: Option<&str>) -> (body: String)
    ensures
        body@ == "{"@ + text_field("player_id"@, player_id@) + ","@ + text_field("route"@, route@)
            + (match meters {
            Some(number) => ",\"meters\":"@ + number@,
            None => ""@,
        }) + "}"@,
{
    proof {
        reveal_strlit("");
    }
    let mut body = String::from_str("{");
    append_field(&mut body, "player_id", player_id);
    body.append(",");
    append_field(&mut body, "route", route);
    let ghost start = body@;
    if let Some(number) = meters {
        body.append(",\"meters\":");
        body.append(number);
        assert(body@ =~= start + (",\"meters\":"@ + number@));
    } else {
        assert(body@ =~= start + ""@);
    }
    body.append("}");
    body
}

/// A tile as JSON.
pub open spec fn tile_json(tile: (usize, usize)) -> Seq<char> {
    "["@ + decimal_text(tile.0 as nat) + ","@ + decimal_text(tile.1 as nat) + "]"@
}

/// The first tiles of a route as JSON, with commas between.
pub open spec fn tiles_json(route: Seq<(usize, usize)>) -> Seq<char>
    decreases route.len(),
{
    if route.len() == 0 {
        Seq::empty()
    } else if route.len() == 1 {
        tile_json(route[0])
    } else {
        tiles_json(route.drop_last()) + ","@ + tile_json(route.last())
    }
}

fn append_tile(json: &mut String, tile: (usize, usize))
    ensures
        final(json)@ == old(json)@ + tile_json(tile),
{
    json.append("[");
    append_decimal(json, tile.0 as u64);
    json.append(",");
    append_decimal(json, tile.1 as u64);
    json.append("]");
    assert(json@ =~= old(json)@ + tile_json(tile));
}

/// A route as JSON: the list of its tiles, each the list of its coordinates.
pub fn route_json(route: &[(usize, usize)]) -> (json: String)
    ensures
        json@ == "["@ + tiles_json(route@) + "]"@,
{
    let mut json = String::from_str("[");
    let mut i: usize = 0;
    assert(json@ =~= "["@ + tiles_json(route@.take(0)));
    while i < route.len()
        invariant
            i <= route.len(),
            json@ == "["@ + tiles_json(route@.take(i as int)),
        decreases route.len() - i,
    {
        let ghost before = tiles_json(route@.take(i as int));
        proof {
            assert(route@.take(i + 1).drop_last() =~= route@.take(i as int));
            assert(route@.take(i + 1).last() == route@[i as int]);
        }
        if i > 0 {
            json.append(",");
        }
        append_tile(&mut json, route[i]);
        proof {
            if i > 0 {
                assert(json@ =~= "["@ + (before + ","@ + tile_json(route@[i as int])));
            } else {
                assert(json@ =~= "["@ + tile_json(route@[0]));
            }
        }
        i = i + 1;
    }
    assert(route@.take(i as int) =~= route@);
    json.append("]");
    json
}

/// Characters that mean something inside a JSON string, and control
/// characters, are written with a backslash; all others stand for themselves.
/// No control character is written out.
pub proof fn special_characters_are_escaped(c: char, i: int)
    ensures
        c == '"' || c == '\\' || (c as int) < 0x20 <==> escaped(c)[0] == '\\',
        escaped(c)[0] != '\\' ==> escaped(c) == seq![c],
        c == '"' || c == '\\' ==> escaped(c) == seq!['\\', c],
        c == '\n' ==> escaped(c) == seq!['\\', 'n'],
        c == '\t' ==> escaped(c) == seq!['\\', 't'],
        c == '\r' ==> escaped(c) == seq!['\\', 'r'],
        c == '\u{8}' ==> escaped(c) == seq!['\\', 'b'],
        c == '\u{c}' ==> escaped(c) == seq!['\\', 'f'],
        0 <= i < escaped(c).len() ==> escaped(c)[i] as int >= 0x20,
        escaped(c).len() == 1 || escaped(c).len() == 2 || escaped(c).len() == 6,
{
}

/// A text is written character by character.
pub proof fn texts_are_escaped_by_character(text: Seq<char>, c: char)
    ensures
        all_escaped(Seq::empty()) == Seq::<char>::empty(),
        all_escaped(text.push(c)) == all_escaped(text) + escaped(c),
        quoted(text) == seq!['"'] + all_escaped(text) + seq!['"'],
{
    assert(text.push(c).drop_last() =~= text);
    assert(text.push(c).last() == c);
    reveal_strlit("\"");
    assert("\""@ =~= seq!['"']);
}

/// A tile is written column first, and one more tile goes behind a comma.
pub proof fn routes_are_written_tile_by_tile(route: Seq<(usize, usize)>, tile: (usize, usize))
    ensures
        tile_json(tile) == "["@ + decimal_text(tile.0 as nat) + ","@ + decimal_text(tile.1 as nat)
            + "]"@,
        tiles_json(Seq::empty()) == Seq::<char>::empty(),
        tiles_json(seq![tile]) == tile_json(tile),
        route.len() > 0 ==> tiles_json(route.push(tile)) == tiles_json(route) + ","@ + tile_json(
            tile,
        ),
{
    assert(route.push(tile).drop_last() =~= route);
}

/// The sixteen digits are written in lower case.
pub proof fn digits_are_written_in_lower_case(digit: int)
    requires
        0 <= digit < 16,
    ensures
        digit < 10 ==> hex_char(digit) as int == '0' as int + digit,
        digit >= 10 ==> hex_char(digit) as int == 'a' as int + digit - 10,
        digit >= 10 ==> 'a' <= hex_char(digit) <= 'f',
{
}

} // verus!
