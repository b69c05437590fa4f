use vstd::prelude::*;

use quick_xml::events::Event;
use quick_xml::Reader;

use crate::board::{Board, Pawn};
use crate::dice::Dice;
use crate::geometry::{Color, Loc};
use crate::moves::{Move, MoveType};

verus! {

/// A quick_xml reader over a text, read one event at a time by `read_token`.
/// Its state is not modelled: nothing is claimed about what it holds.
#[verifier::external_body]
pub struct XmlReader<'a> {
    reader: Reader<&'a [u8]>,
}

/// One event read from XML text, reduced to what the protocol needs.
#[derive(Debug, Clone, PartialEq, Eq)]
pub enum XmlToken {
    /// A start tag, with its decoded content (the tag name, for the protocol's tags).
    Start(String),
    /// A text between tags, unescaped, with surrounding whitespace trimmed.
    Text(String),
    /// Any other event: an end tag, a self-closing tag, a comment, a CDATA
    /// section, a declaration, a processing instruction or a doctype.
    Other,
    /// The end of the text.
    Eof,
    /// The text is not well-formed XML.
    Malformed,
}

/// Relies on quick_xml's `Reader::from_str` and `trim_text(true)`: a reader over
/// `text` that leaves out whitespace-only texts.
#[verifier::external_body]
fn xml_reader<'a>(text: &'a str) -> XmlReader<'a> {
    let mut reader = Reader::from_str(text);
    reader.trim_text(true);
    XmlReader { reader }
}

/// Relies on quick_xml's `Reader::read_event` for the next event, and on
/// `unescape_and_decode` for the content of start tags and texts.
#[verifier::external_body]
fn read_token(xml: &mut XmlReader) -> XmlToken {
    let mut buf = Vec::new();
    match xml.reader.read_event(&mut buf) {
        Ok(Event::Start(e)) => e.unescape_and_decode(&xml.reader).map_or(XmlToken::Malformed, XmlToken::Start),
        Ok(Event::Text(e)) => e.unescape_and_decode(&xml.reader).map_or(XmlToken::Malformed, XmlToken::Text),
        Ok(Event::Eof) => XmlToken::Eof,
        Ok(Event::End(_) | Event::Empty(_) | Event::Comment(_) | Event::CData(_)) => XmlToken::Other,
        Ok(Event::Decl(_) | Event::PI(_) | Event::DocType(_)) => XmlToken::Other,
        Err(_) => XmlToken::Malformed,
    }
}

/// Why protocol text could not be decoded.
#[derive(Debug, Clone, Copy, PartialEq, Eq, Structural)]
pub enum DecodeError {
    /// The text is not well-formed XML.
    Malformed,
    /// The text does not have the shape the protocol expects.
    Unexpected,
}

/// The value of decimal digit `c`, or `None` for another character.
pub open spec fn digit_value(c: char) -> Option<int> {
    if c == '0' {
        Some(0)
    } else if c == '1' {
        Some(1)
    } else if c == '2' {
        Some(2)
    } else if c == '3' {
        Some(3)
    } else if c == '4' {
        Some(4)
    } else if c == '5' {
        Some(5)
    } else if c == '6' {
        Some(6)
    } else if c == '7' {
        Some(7)
    } else if c == '8' {
        Some(8)
    } else if c == '9' {
        Some(9)
    } else {
        None
    }
}

/// The value of a string of decimal digits.
pub open spec fn digits_value(s: Seq<char>) -> int
    decreases s.len(),
{
    if s.len() == 0 {
        0
    } else {
        digits_value(s.drop_last()) * 10 + digit_value(s.last()).unwrap_or(0)
    }
}

/// The number that `s` writes in decimal: one or more digits, with a value that
/// fits a `usize`.
pub open spec fn number_value(s: Seq<char>) -> Option<usize> {
    if s.len() > 0 && (forall|i: int| 0 <= i < s.len() ==> #[trigger] digit_value(s[i]) is Some)
        && digits_value(s) <= usize::MAX {
        Some(digits_value(s) as usize)
    } else {
        None
    }
}

/// The color that the protocol names `s`.
pub open spec fn color_from_name(s: Seq<char>) -> Option<Color> {
    if s == "Red"@ {
        Some(Color::Red)
    } else if s == "Blue"@ {
        Some(Color::Blue)
    } else if s == "Yellow"@ {
        Some(Color::Yellow)
    } else if s == "Green"@ {
        Some(Color::Green)
    } else {
        None
    }
}

/// The pawn named by a color text and an ordinal text.
pub open spec fn pawn_from_texts(color: Seq<char>, id: Seq<char>) -> Option<Pawn> {
    match (color_from_name(color), number_value(id)) {
        (Some(c), Some(n)) => if n < 4 {
            Some(Pawn { color: c, id: n })
        } else {
            None
        },
        _ => None,
    }
}

/// The texts of a list of strings.
pub open spec fn texts(ss: Seq<String>) -> Seq<Seq<char>> {
    ss.map_values(|s: String| s@)
}

/// `rest` with `items` in front, when there is a `rest`.
pub open spec fn prepend<T>(items: Seq<T>, rest: Option<Seq<T>>) -> Option<Seq<T>> {
    match rest {
        Some(r) => Some(items + r),
        None => None,
    }
}

/// The moves that the strings from position `i` on describe: each an
/// `enter-piece` followed by a color and an ordinal, or a `move-piece-home` or
/// `move-piece-main` followed by a color, an ordinal, a start and a distance.
pub open spec fn moves_from(ss: Seq<Seq<char>>, i: int) -> Option<Seq<Move>>
    decreases ss.len() - i,
{
    if i < 0 || i >= ss.len() {
        Some(Seq::empty())
    } else if ss[i] == "enter-piece"@ {
        if i + 3 <= ss.len() {
            match pawn_from_texts(ss[i + 1], ss[i + 2]) {
                Some(p) => prepend(seq![Move { m_type: MoveType::EnterPiece, pawn: p }], moves_from(ss, i + 3)),
                None => None,
            }
        } else {
            None
        }
    } else if ss[i] == "move-piece-home"@ || ss[i] == "move-piece-main"@ {
        if i + 5 <= ss.len() {
            match (pawn_from_texts(ss[i + 1], ss[i + 2]), number_value(ss[i + 3]), number_value(ss[i + 4])) {
                (Some(p), Some(start), Some(distance)) => {
                    let m_type = if ss[i] == "move-piece-home"@ {
                        MoveType::MoveHome { start, distance }
                    } else {
                        MoveType::MoveMain { start, distance }
                    };
                    prepend(seq![Move { m_type, pawn: p }], moves_from(ss, i + 5))
                },
                _ => None,
            }
        } else {
            None
        }
    } else {
        None
    }
}

proof fn lemma_digits_value_grows(s: Seq<char>, i: int, j: int)
    requires
        0 <= i <= j <= s.len(),
        forall|k: int| 0 <= k < s.len() ==> #[trigger] digit_value(s[k]) is Some,
    ensures
        digits_value(s.take(i)) <= digits_value(s.take(j)),
    decreases j - i,
{
    if i < j {
        lemma_digits_value_grows(s, i, j - 1);
        assert(s.take(j).drop_last() == s.take(j - 1));
        assert(digits_value(s.take(j - 1)) >= 0) by {
            lemma_digits_value_nonneg(s.take(j - 1));
        }
    }
}

proof fn lemma_digits_value_nonneg(s: Seq<char>)
    ensures
        digits_value(s) >= 0,
    decreases s.len(),
{
    if s.len() > 0 {
        lemma_digits_value_nonneg(s.drop_last());
    }
}

/// The value of decimal digit `c`, if it is one.
fn digit_of(c: char) -> (r: Option<usize>)
    ensures
        r == (match digit_value(c) {
            Some(d) => Some(d as usize),
            None => None::<usize>,
        }),
{
    if c == '0' {
        Some(0)
    } else if c == '1' {
        Some(1)
    } else if c == '2' {
        Some(2)
    } else if c == '3' {
        Some(3)
    } else if c == '4' {
        Some(4)
    } else if c == '5' {
        Some(5)
    } else if c == '6' {
        Some(6)
    } else if c == '7' {
        Some(7)
    } else if c == '8' {
        Some(8)
    } else if c == '9' {
        Some(9)
    } else {
        None
    }
}

/// The number that `s` writes in decimal.
pub fn parse_number(s: &String) -> (r: Option<usize>)
    ensures
        r == number_value(s@),
{
    let text = s.as_str();
    let n = text.unicode_len();
    if n == 0 {
        return None;
    }
    let mut acc: usize = 0;
    let mut i: usize = 0;
    while i < n
        invariant
            n == s@.len(),
            text@ == s@,
            i <= n,
            forall|k: int| 0 <= k < i ==> #[trigger] digit_value(s@[k]) is Some,
            acc == digits_value(s@.take(i as int)),
        decreases n - i,
    {
        let c = text.get_char(i);
        let d = match digit_of(c) {
            Some(d) => d,
            None => {
                return None;
            },
        };
        assert(s@.take(i + 1).drop_last() == s@.take(i as int));
        let next = match acc.checked_mul(10) {
            Some(t) => t.checked_add(d),
            None => None,
        };
        match next {
            Some(v) => {
                acc = v;
            },
            None => {
                proof {
                    if forall|k: int| 0 <= k < s@.len() ==> #[trigger] digit_value(s@[k]) is Some {
                        lemma_digits_value_grows(s@, i + 1, s@.len() as int);
                        assert(s@.take(s@.len() as int) == s@);
                    }
                }
                return None;
            },
        }
        i = i + 1;
    }
    assert(s@.take(n as int) == s@);
    Some(acc)
}

/// The color that the protocol names `string`.
pub fn string_to_color(string: String) -> (r: Result<Color, DecodeError>)
    ensures
        match color_from_name(string@) {
            Some(c) => r == Ok::<Color, DecodeError>(c),
            None => r == Err::<Color, DecodeError>(DecodeError::Unexpected),
        },
{
    if string == String::from_str("Red") {
        Ok(Color::Red)
    } else if string == String::from_str("Blue") {
        Ok(Color::Blue)
    } else if string == String::from_str("Yellow") {
        Ok(Color::Yellow)
    } else if string == String::from_str("Green") {
        Ok(Color::Green)
    } else {
        Err(DecodeError::Unexpected)
    }
}

/// The pawn named by a color text and an ordinal text.
pub fn build_pawn_from_strings(color: String, id: String) -> (r: Result<Pawn, DecodeError>)
    ensures
        match pawn_from_texts(color@, id@) {
            Some(p) => r == Ok::<Pawn, DecodeError>(p),
            None => r == Err::<Pawn, DecodeError>(DecodeError::Unexpected),
        },
{
    let c = match string_to_color(color) {
        Ok(c) => c,
        Err(e) => {
            return Err(e);
        },
    };
    match parse_number(&id) {
        Some(n) => if n < 4 {
            Ok(Pawn { color: c, id: n })
        } else {
            Err(DecodeError::Unexpected)
        },
        None => Err(DecodeError::Unexpected),
    }
}

/// Whether strings `a` and `b` have the same text.
fn same_text(a: &String, b: &str) -> (r: bool)
    ensures
        r == (a@ == b@),
{
    *a == String::from_str(b)
}

/// The moves that a list of strings describes (see `moves_from`).
pub fn vec_string_to_vec_move(vec_string: Vec<String>) -> (r: Result<Vec<Move>, DecodeError>)
    ensures
        match moves_from(texts(vec_string@), 0) {
            Some(ms) => r matches Ok(v) && v@ == ms,
            None => r == Err::<Vec<Move>, DecodeError>(DecodeError::Unexpected),
        },
{
    let ghost ss = texts(vec_string@);
    let n = vec_string.len();
    let mut moves: Vec<Move> = Vec::new();
    let mut i: usize = 0;
    while i < n
        invariant
            ss == texts(vec_string@),
            n == vec_string@.len(),
            i <= n,
            moves_from(ss, 0) == prepend(moves@, moves_from(ss, i as int)),
        decreases n - i,
    {
        let tag = &vec_string[i];
        if same_text(tag, "enter-piece") {
            if n - i < 3 {
                return Err(DecodeError::Unexpected);
            }
            let p = match build_pawn_from_strings(vec_string[i + 1].clone(), vec_string[i + 2].clone()) {
                Ok(p) => p,
                Err(e) => {
                    return Err(e);
                },
            };
            moves.push(Move { m_type: MoveType::EnterPiece, pawn: p });
            i = i + 3;
        } else if same_text(tag, "move-piece-home") || same_text(tag, "move-piece-main") {
            if n - i < 5 {
                return Err(DecodeError::Unexpected);
            }
            let p = match build_pawn_from_strings(vec_string[i + 1].clone(), vec_string[i + 2].clone()) {
                Ok(p) => p,
                Err(e) => {
                    return Err(e);
                },
            };
            let start = match parse_number(&vec_string[i + 3]) {
                Some(v) => v,
                None => {
                    return Err(DecodeError::Unexpected);
                },
            };
            let distance = match parse_number(&vec_string[i + 4]) {
                Some(v) => v,
                None => {
                    return Err(DecodeError::Unexpected);
                },
            };
            let m_type = if same_text(tag, "move-piece-home") {
                MoveType::MoveHome { start, distance }
            } else {
                MoveType::MoveMain { start, distance }
            };
            let ghost before = moves@;
            moves.push(Move { m_type, pawn: p });
            i = i + 5;
        } else {
            return Err(DecodeError::Unexpected);
        }
    }
    Ok(moves)
}

/// Whether a token ends a reading.
pub open spec fn is_final(t: XmlToken) -> bool {
    t is Eof || t is Malformed
}

/// The events of `text`, in order, up to and including the end or the first
/// error. Each event spans at least one character, so at most `len + 1` events
/// are read.
pub fn xml_tokens(text: &str) -> (r: Vec<XmlToken>)
    ensures
        r@.len() >= 1,
        is_final(r@.last()),
        forall|i: int| 0 <= i < r@.len() - 1 ==> !is_final(#[trigger] r@[i]),
{
    let mut reader = xml_reader(text);
    let mut tokens: Vec<XmlToken> = Vec::new();
    let bound = text.unicode_len();
    let mut n: usize = 0;
    loop
        invariant
            n <= bound,
            forall|i: int| 0 <= i < tokens@.len() ==> !is_final(#[trigger] tokens@[i]),
        decreases bound - n,
    {
        let t = read_token(&mut reader);
        let done = match t {
            XmlToken::Eof => true,
            XmlToken::Malformed => true,
            _ => false,
        };
        tokens.push(t);
        if done {
            return tokens;
        }
        if n == bound {
            break;
        }
        n = n + 1;
    }
    tokens.push(XmlToken::Malformed);
    tokens
}

/// Whether `name` is the tag of a move.
pub open spec fn is_move_tag(name: Seq<char>) -> bool {
    name == "enter-piece"@ || name == "move-piece-home"@ || name == "move-piece-main"@
}

/// The strings that a `<moves>` message holds from token `i` on: the tag of
/// each move and every text, in order, up to the end of the reading.
pub open spec fn move_strings_from(ts: Seq<XmlToken>, i: int) -> Option<Seq<Seq<char>>>
    decreases ts.len() - i,
{
    if i < 0 || i >= ts.len() {
        Some(Seq::empty())
    } else {
        match ts[i] {
            XmlToken::Eof => Some(Seq::empty()),
            XmlToken::Malformed => None,
            XmlToken::Start(name) => if is_move_tag(name@) {
                prepend(seq![name@], move_strings_from(ts, i + 1))
            } else {
                move_strings_from(ts, i + 1)
            },
            XmlToken::Text(t) => prepend(seq![t@], move_strings_from(ts, i + 1)),
            XmlToken::Other => move_strings_from(ts, i + 1),
        }
    }
}

/// The strings that a board holds from token `i` on: the name of every start
/// tag but `board`, and every text, in order, up to `<dice>` or the end.
pub open spec fn board_strings_from(ts: Seq<XmlToken>, i: int) -> Option<Seq<Seq<char>>>
    decreases ts.len() - i,
{
    if i < 0 || i >= ts.len() {
        Some(Seq::empty())
    } else {
        match ts[i] {
            XmlToken::Eof => Some(Seq::empty()),
            XmlToken::Malformed => None,
            XmlToken::Start(name) => if name@ == "board"@ {
                board_strings_from(ts, i + 1)
            } else if name@ == "dice"@ {
                Some(Seq::empty())
            } else {
                prepend(seq![name@], board_strings_from(ts, i + 1))
            },
            XmlToken::Text(t) => prepend(seq![t@], board_strings_from(ts, i + 1)),
            XmlToken::Other => board_strings_from(ts, i + 1),
        }
    }
}

/// The distances that the texts after a `<dice>` tag write, from token `i` on.
pub open spec fn dice_values_from(ts: Seq<XmlToken>, i: int, in_dice: bool) -> Option<Seq<usize>>
    decreases ts.len() - i,
{
    if i < 0 || i >= ts.len() {
        if in_dice {
            Some(Seq::empty())
        } else {
            None
        }
    } else {
        match ts[i] {
            XmlToken::Eof => if in_dice {
                Some(Seq::empty())
            } else {
                None
            },
            XmlToken::Malformed => None,
            XmlToken::Start(name) => dice_values_from(ts, i + 1, in_dice || name@ == "dice"@),
            XmlToken::Text(t) => if in_dice {
                match number_value(t@) {
                    Some(v) => prepend(seq![v], dice_values_from(ts, i + 1, in_dice)),
                    None => None,
                }
            } else {
                dice_values_from(ts, i + 1, in_dice)
            },
            XmlToken::Other => dice_values_from(ts, i + 1, in_dice),
        }
    }
}

/// The last text before the end of the reading, from token `i` on; `None` when
/// there is none. A malformed reading has none either (see `has_malformed`).
pub open spec fn last_text_from(ts: Seq<XmlToken>, i: int) -> Option<Seq<char>>
    decreases ts.len() - i,
{
    if i < 0 || i >= ts.len() {
        None
    } else {
        match ts[i] {
            XmlToken::Eof => None,
            XmlToken::Malformed => None,
            XmlToken::Text(t) => match last_text_from(ts, i + 1) {
                Some(later) => Some(later),
                None => Some(t@),
            },
            _ => last_text_from(ts, i + 1),
        }
    }
}

/// Whether the reading failed.
pub open spec fn has_malformed(ts: Seq<XmlToken>) -> bool {
    exists|i: int| 0 <= i < ts.len() && #[trigger] ts[i] == XmlToken::Malformed
}

/// Whether `s` is markup inside a pawn (`pawn`, `color`, `id`), which the
/// positions of a list of strings already tell.
pub open spec fn is_pawn_markup(s: Seq<char>) -> bool {
    s == "id"@ || s == "color"@ || s == "pawn"@
}

/// `ss` without its pawn markup.
pub open spec fn trimmed(ss: Seq<Seq<char>>) -> Seq<Seq<char>>
    decreases ss.len(),
{
    if ss.len() == 0 {
        Seq::empty()
    } else if is_pawn_markup(ss.last()) {
        trimmed(ss.drop_last())
    } else {
        trimmed(ss.drop_last()).push(ss.last())
    }
}

/// The strings of `tokens` that a `<moves>` message holds.
pub fn move_strings(tokens: &Vec<XmlToken>) -> (r: Result<Vec<String>, DecodeError>)
    ensures
        match move_strings_from(tokens@, 0) {
            Some(ss) => r matches Ok(v) && texts(v@) == ss,
            None => r == Err::<Vec<String>, DecodeError>(DecodeError::Malformed),
        },
{
    let mut out: Vec<String> = Vec::new();
    let mut i: usize = 0;
    while i < tokens.len()
        invariant
            i <= tokens@.len(),
            move_strings_from(tokens@, 0) == prepend(texts(out@), move_strings_from(tokens@, i as int)),
        decreases tokens@.len() - i,
    {
        match &tokens[i] {
            XmlToken::Eof => {
                return Ok(out);
            },
            XmlToken::Malformed => {
                return Err(DecodeError::Malformed);
            },
            XmlToken::Start(name) => {
                if same_text(name, "enter-piece") || same_text(name, "move-piece-home") || same_text(
                    name,
                    "move-piece-main",
                ) {
                    out.push(name.clone());
                }
            },
            XmlToken::Text(t) => {
                out.push(t.clone());
            },
            XmlToken::Other => {},
        }
        proof {
            let rest = move_strings_from(tokens@, i + 1);
            if rest is Some {
            }
        }
        i = i + 1;
    }
    Ok(out)
}

/// The strings of `tokens` that a board holds.
pub fn board_strings(tokens: &Vec<XmlToken>) -> (r: Result<Vec<String>, DecodeError>)
    ensures
        match board_strings_from(tokens@, 0) {
            Some(ss) => r matches Ok(v) && texts(v@) == ss,
            None => r == Err::<Vec<String>, DecodeError>(DecodeError::Malformed),
        },
{
    let mut out: Vec<String> = Vec::new();
    let mut i: usize = 0;
    while i < tokens.len()
        invariant
            i <= tokens@.len(),
            board_strings_from(tokens@, 0) == prepend(texts(out@), board_strings_from(tokens@, i as int)),
        decreases tokens@.len() - i,
    {
        match &tokens[i] {
            XmlToken::Eof => {
                return Ok(out);
            },
            XmlToken::Malformed => {
                return Err(DecodeError::Malformed);
            },
            XmlToken::Start(name) => {
                if same_text(name, "board") {
                } else if same_text(name, "dice") {
                    return Ok(out);
                } else {
                    out.push(name.clone());
                }
            },
            XmlToken::Text(t) => {
                out.push(t.clone());
            },
            XmlToken::Other => {},
        }
        proof {
            let rest = board_strings_from(tokens@, i + 1);
            if rest is Some {
            }
        }
        i = i + 1;
    }
    Ok(out)
}

/// The distances that the texts after the `<dice>` tag of `tokens` write.
pub fn dice_from_tokens(tokens: &Vec<XmlToken>) -> (r: Result<Dice, DecodeError>)
    ensures
        match dice_values_from(tokens@, 0, false) {
            Some(ds) => r matches Ok(d) && d.rolls@ == ds,
            None => r is Err,
        },
{
    let mut rolls: Vec<usize> = Vec::new();
    let mut in_dice = false;
    let mut i: usize = 0;
    while i < tokens.len()
        invariant
            i <= tokens@.len(),
            dice_values_from(tokens@, 0, false) == prepend(rolls@, dice_values_from(tokens@, i as int, in_dice)),
        decreases tokens@.len() - i,
    {
        match &tokens[i] {
            XmlToken::Eof => {
                if in_dice {
                    return Ok(Dice { rolls });
                } else {
                    return Err(DecodeError::Unexpected);
                }
            },
            XmlToken::Malformed => {
                return Err(DecodeError::Malformed);
            },
            XmlToken::Start(name) => {
                if same_text(name, "dice") {
                    in_dice = true;
                }
            },
            XmlToken::Text(t) => {
                if in_dice {
                    match parse_number(t) {
                        Some(v) => {
                            rolls.push(v);
                            proof {
                                let rest = dice_values_from(tokens@, i + 1, in_dice);
                                if rest is Some {
                                }
                            }
                        },
                        None => {
                            return Err(DecodeError::Unexpected);
                        },
                    }
                }
            },
            XmlToken::Other => {},
        }
        i = i + 1;
    }
    if in_dice {
        Ok(Dice { rolls })
    } else {
        Err(DecodeError::Unexpected)
    }
}

/// `ss` without its pawn markup (`pawn`, `color`, `id`).
pub fn trim_xml(xml_string: &Vec<String>) -> (r: Vec<String>)
    ensures
        texts(r@) == trimmed(texts(xml_string@)),
{
    let mut out: Vec<String> = Vec::new();
    let mut i: usize = 0;
    while i < xml_string.len()
        invariant
            i <= xml_string@.len(),
            texts(out@) == trimmed(texts(xml_string@).take(i as int)),
        decreases xml_string@.len() - i,
    {
        let s = &xml_string[i];
        let ghost ss = texts(xml_string@);
        assert(ss.take(i + 1).drop_last() == ss.take(i as int));
        if !(same_text(s, "id") || same_text(s, "color") || same_text(s, "pawn")) {
            out.push(s.clone());
        }
        i = i + 1;
    }
    assert(texts(xml_string@).take(xml_string@.len() as int) == texts(xml_string@));
    out
}

/// The first position at or after `from` where `t` stands in `ss`, or `ss.len()`.
pub open spec fn index_of_from(ss: Seq<Seq<char>>, t: Seq<char>, from: int) -> int
    decreases ss.len() - from,
{
    if from < 0 || from >= ss.len() {
        ss.len() as int
    } else if ss[from] == t {
        from
    } else {
        index_of_from(ss, t, from + 1)
    }
}

/// The pawns placed on cells by a list of `piece-loc` items from position `i`:
/// each `piece-loc`, a color, an ordinal, `loc` and a cell number.
pub open spec fn main_places(items: Seq<Seq<char>>, i: int) -> Option<Seq<(Pawn, Loc)>>
    decreases items.len() - i,
{
    if i < 0 || i >= items.len() {
        Some(Seq::empty())
    } else if items[i] == "piece-loc"@ && i + 5 <= items.len() && items[i + 3] == "loc"@ {
        match (pawn_from_texts(items[i + 1], items[i + 2]), number_value(items[i + 4])) {
            (Some(p), Some(n)) => prepend(seq![(p, Loc::Spot { index: n })], main_places(items, i + 5)),
            _ => None,
        }
    } else {
        None
    }
}

/// The pawns placed home by a list of (color, ordinal) items from position `i`.
pub open spec fn home_places(items: Seq<Seq<char>>, i: int) -> Option<Seq<(Pawn, Loc)>>
    decreases items.len() - i,
{
    if i < 0 || i >= items.len() {
        Some(Seq::empty())
    } else if i + 2 <= items.len() {
        match pawn_from_texts(items[i], items[i + 1]) {
            Some(p) => prepend(seq![(p, Loc::Home)], home_places(items, i + 2)),
            None => None,
        }
    } else {
        None
    }
}

/// Where the strings of a board place pawns: the items between `main` and
/// `home-rows` and between `home-rows` and `home` (pawn markup left out) are
/// `piece-loc` items, the items after `home` are pawns at home. Pawns not placed
/// are in their nests.
pub open spec fn board_places(ss: Seq<Seq<char>>) -> Option<Seq<(Pawn, Loc)>> {
    let m = index_of_from(ss, "main"@, 0);
    let hr = index_of_from(ss, "home-rows"@, m + 1);
    let h = index_of_from(ss, "home"@, hr + 1);
    if h >= ss.len() {
        None
    } else {
        let on_cells = trimmed(ss.subrange(m + 1, hr)) + trimmed(ss.subrange(hr + 1, h));
        let at_home = trimmed(ss.subrange(h + 1, ss.len() as int));
        join_places(main_places(on_cells, 0), home_places(at_home, 0))
    }
}

/// Both lists of placements, when both are there.
pub open spec fn join_places(a: Option<Seq<(Pawn, Loc)>>, b: Option<Seq<(Pawn, Loc)>>) -> Option<Seq<(Pawn, Loc)>> {
    match (a, b) {
        (Some(x), Some(y)) => Some(x + y),
        _ => None,
    }
}

/// Where the last placement of pawn `k` of color `c` in `ps` puts it; the nest
/// if none does.
pub open spec fn placed(ps: Seq<(Pawn, Loc)>, c: Color, k: int) -> Loc
    decreases ps.len(),
{
    if ps.len() == 0 {
        Loc::Nest
    } else if ps.last().0.color == c && ps.last().0.id == k {
        ps.last().1
    } else {
        placed(ps.drop_last(), c, k)
    }
}

/// The first position at or after `from` where text `t` stands in `v`.
fn find_text(v: &Vec<String>, t: &str, from: usize) -> (r: usize)
    ensures
        r == index_of_from(texts(v@), t@, from as int),
{
    let ghost ss = texts(v@);
    let mut i = from;
    if i >= v.len() {
        return v.len();
    }
    while i < v.len()
        invariant
            ss == texts(v@),
            from <= i <= v@.len(),
            index_of_from(ss, t@, from as int) == index_of_from(ss, t@, i as int),
        decreases v@.len() - i,
    {
        if same_text(&v[i], t) {
            return i;
        }
        i = i + 1;
    }
    i
}

/// The strings of `v` from `from` up to `to`.
fn sub_vec(v: &Vec<String>, from: usize, to: usize) -> (r: Vec<String>)
    requires
        from <= to <= v@.len(),
    ensures
        texts(r@) == texts(v@).subrange(from as int, to as int),
{
    let mut out: Vec<String> = Vec::new();
    let mut i = from;
    while i < to
        invariant
            from <= i <= to,
            to <= v@.len(),
            texts(out@) == texts(v@).subrange(from as int, i as int),
        decreases to - i,
    {
        out.push(v[i].clone());
        assert(texts(v@).subrange(from as int, i + 1) == texts(v@).subrange(from as int, i as int).push(v@[i as int]@));
        i = i + 1;
    }
    out
}

impl Board {
    /// This board with pawn `p` at `l`.
    fn place(&self, p: Pawn, l: Loc) -> (r: Board)
        requires
            p.id < 4,
        ensures
            forall|c: Color, k: int|
                0 <= k < 4 ==> #[trigger] r.locs(c)[k] == if c == p.color && k == p.id {
                    l
                } else {
                    self.locs(c)[k]
                },
    {
        let mut locs = self.get_pawns_by_color(&p.color);
        locs[p.id] = l;
        self.with_locs(p.color, locs)
    }
}

/// The board that a list of strings describes (see `board_places`).
pub fn split_up_vec_xml_string(vec_xml_string: Vec<String>) -> (r: Result<Board, DecodeError>)
    ensures
        match board_places(texts(vec_xml_string@)) {
            Some(ps) => r matches Ok(b) && forall|c: Color, k: int|
                0 <= k < 4 ==> #[trigger] b.locs(c)[k] == placed(ps, c, k),
            None => r == Err::<Board, DecodeError>(DecodeError::Unexpected),
        },
{
    let ghost ss = texts(vec_xml_string@);
    let n = vec_xml_string.len();
    let m = find_text(&vec_xml_string, "main", 0);
    if m >= n {
        return Err(DecodeError::Unexpected);
    }
    let hr = find_text(&vec_xml_string, "home-rows", m + 1);
    if hr >= n {
        return Err(DecodeError::Unexpected);
    }
    let h = find_text(&vec_xml_string, "home", hr + 1);
    if h >= n {
        return Err(DecodeError::Unexpected);
    }
    proof {
        lemma_index_of_from(ss, "main"@, 0);
        lemma_index_of_from(ss, "home-rows"@, m + 1);
        lemma_index_of_from(ss, "home"@, hr + 1);
    }
    let mut on_cells = trim_xml(&sub_vec(&vec_xml_string, m + 1, hr));
    let mut home_rows = trim_xml(&sub_vec(&vec_xml_string, hr + 1, h));
    on_cells.append(&mut home_rows);
    let at_home = trim_xml(&sub_vec(&vec_xml_string, h + 1, n));
    assert(texts(on_cells@) == trimmed(ss.subrange(m + 1, hr as int)) + trimmed(ss.subrange(hr + 1, h as int)));
    let mut board = Board::new();
    let ghost mut placements: Seq<(Pawn, Loc)> = Seq::empty();
    let ghost items = texts(on_cells@);
    let ghost homes = texts(at_home@);
    let mut i: usize = 0;
    while i < on_cells.len()
        invariant
            ss == texts(vec_xml_string@),
            items == texts(on_cells@),
            homes == texts(at_home@),
            board_places(ss) == join_places(main_places(items, 0), home_places(homes, 0)),
            i <= on_cells@.len(),
            main_places(items, 0) == prepend(placements, main_places(items, i as int)),
            forall|c: Color, k: int| 0 <= k < 4 ==> #[trigger] board.locs(c)[k] == placed(placements, c, k),
        decreases on_cells@.len() - i,
    {
        if !same_text(&on_cells[i], "piece-loc") || on_cells.len() - i < 5 || !same_text(&on_cells[i + 3], "loc") {
            return Err(DecodeError::Unexpected);
        }
        let p = match build_pawn_from_strings(on_cells[i + 1].clone(), on_cells[i + 2].clone()) {
            Ok(p) => p,
            Err(e) => {
                return Err(e);
            },
        };
        let index = match parse_number(&on_cells[i + 4]) {
            Some(v) => v,
            None => {
                return Err(DecodeError::Unexpected);
            },
        };
        let l = Loc::Spot { index };
        board = board.place(p, l);
        proof {
            let rest = main_places(items, i + 5);
            if rest is Some {
            }
            let np = placements.push((p, l));
            assert(np.drop_last() == placements);
            placements = np;
        }
        i = i + 5;
    }
    let ghost main_part = placements;
    let ghost mut home_part: Seq<(Pawn, Loc)> = Seq::empty();
    let mut j: usize = 0;
    while j < at_home.len()
        invariant
            ss == texts(vec_xml_string@),
            homes == texts(at_home@),
            board_places(ss) == join_places(main_places(items, 0), home_places(homes, 0)),
            main_places(items, 0) == Some(main_part),
            j <= at_home@.len(),
            home_places(homes, 0) == prepend(home_part, home_places(homes, j as int)),
            placements == main_part + home_part,
            forall|c: Color, k: int| 0 <= k < 4 ==> #[trigger] board.locs(c)[k] == placed(placements, c, k),
        decreases at_home@.len() - j,
    {
        if at_home.len() - j < 2 {
            return Err(DecodeError::Unexpected);
        }
        let p = match build_pawn_from_strings(at_home[j].clone(), at_home[j + 1].clone()) {
            Ok(p) => p,
            Err(e) => {
                return Err(e);
            },
        };
        board = board.place(p, Loc::Home);
        proof {
            let rest = home_places(homes, j + 2);
            if rest is Some {
            }
            let np = placements.push((p, Loc::Home));
            assert(np.drop_last() == placements);
            home_part = home_part.push((p, Loc::Home));
            placements = np;
        }
        j = j + 2;
    }
    Ok(board)
}

proof fn lemma_index_of_from(ss: Seq<Seq<char>>, t: Seq<char>, from: int)
    requires
        0 <= from,
    ensures
        index_of_from(ss, t, from) >= from || index_of_from(ss, t, from) == ss.len(),
        index_of_from(ss, t, from) <= ss.len(),
    decreases ss.len() - from,
{
    if from < ss.len() && ss[from] != t {
        lemma_index_of_from(ss, t, from + 1);
    }
}

/// Whether the reading of `ts` from token `i` on ends in an error.
pub open spec fn reading_malformed(ts: Seq<XmlToken>, i: int) -> bool
    decreases ts.len() - i,
{
    if i < 0 || i >= ts.len() {
        false
    } else {
        match ts[i] {
            XmlToken::Eof => false,
            XmlToken::Malformed => true,
            _ => reading_malformed(ts, i + 1),
        }
    }
}

/// The color that a `<start-game>` message names: its last text.
pub open spec fn start_game_color(ts: Seq<XmlToken>) -> Result<Color, DecodeError> {
    if reading_malformed(ts, 0) {
        Err(DecodeError::Malformed)
    } else {
        match last_text_from(ts, 0) {
            Some(t) => match color_from_name(t) {
                Some(c) => Ok(c),
                None => Err(DecodeError::Unexpected),
            },
            None => Err(DecodeError::Unexpected),
        }
    }
}

/// The later of two texts: `later` if there is one, else `earlier`.
pub open spec fn later_text(earlier: Option<Seq<char>>, later: Option<Seq<char>>) -> Option<Seq<char>> {
    match later {
        Some(t) => Some(t),
        None => earlier,
    }
}

/// The color that the `<start-game>` message read as `tokens` names.
pub fn start_game_from_tokens(tokens: &Vec<XmlToken>) -> (r: Result<Color, DecodeError>)
    ensures
        r == start_game_color(tokens@),
{
    let mut latest: Option<String> = None;
    let ghost mut latest_text: Option<Seq<char>> = None;
    let mut i: usize = 0;
    while i < tokens.len()
        invariant
            i <= tokens@.len(),
            latest_text == (match latest {
                Some(t) => Some(t@),
                None => None::<Seq<char>>,
            }),
            last_text_from(tokens@, 0) == later_text(latest_text, last_text_from(tokens@, i as int)),
            reading_malformed(tokens@, 0) == reading_malformed(tokens@, i as int),
        decreases tokens@.len() - i,
    {
        match &tokens[i] {
            XmlToken::Eof => {
                i = tokens.len();
            },
            XmlToken::Malformed => {
                return Err(DecodeError::Malformed);
            },
            XmlToken::Text(t) => {
                latest = Some(t.clone());
                proof {
                    latest_text = Some(t@);
                }
            },
            _ => {},
        }
        if i < tokens.len() {
            i = i + 1;
        }
    }
    match latest {
        Some(t) => string_to_color(t),
        None => Err(DecodeError::Unexpected),
    }
}

/// Whether `r` is what the moves grammar gives for the reading `ts`.
pub open spec fn moves_of_reading(ts: Seq<XmlToken>, r: Result<Vec<Move>, DecodeError>) -> bool {
    match move_strings_from(ts, 0) {
        Some(ss) => match moves_from(ss, 0) {
            Some(ms) => r matches Ok(v) && v@ == ms,
            None => r == Err::<Vec<Move>, DecodeError>(DecodeError::Unexpected),
        },
        None => r == Err::<Vec<Move>, DecodeError>(DecodeError::Malformed),
    }
}

/// Whether `r` is what the board grammar gives for the reading `ts`.
pub open spec fn board_of_reading(ts: Seq<XmlToken>, r: Result<Board, DecodeError>) -> bool {
    match board_strings_from(ts, 0) {
        Some(ss) => match board_places(ss) {
            Some(ps) => r matches Ok(b) && forall|c: Color, k: int|
                0 <= k < 4 ==> #[trigger] b.locs(c)[k] == placed(ps, c, k),
            None => r == Err::<Board, DecodeError>(DecodeError::Unexpected),
        },
        None => r == Err::<Board, DecodeError>(DecodeError::Malformed),
    }
}

/// Whether `r` is what the dice grammar gives for the reading `ts`.
pub open spec fn dice_of_reading(ts: Seq<XmlToken>, r: Result<Dice, DecodeError>) -> bool {
    match dice_values_from(ts, 0, false) {
        Some(ds) => r matches Ok(d) && d.rolls@ == ds,
        None => r is Err,
    }
}

/// Whether `r` is what the moves message gives as strings for the reading `ts`.
pub open spec fn move_strings_of_reading(ts: Seq<XmlToken>, r: Result<Vec<String>, DecodeError>) -> bool {
    match move_strings_from(ts, 0) {
        Some(ss) => r matches Ok(v) && texts(v@) == ss,
        None => r == Err::<Vec<String>, DecodeError>(DecodeError::Malformed),
    }
}

/// Whether `r` is what the board gives as strings for the reading `ts`.
pub open spec fn board_strings_of_reading(ts: Seq<XmlToken>, r: Result<Vec<String>, DecodeError>) -> bool {
    match board_strings_from(ts, 0) {
        Some(ss) => r matches Ok(v) && texts(v@) == ss,
        None => r == Err::<Vec<String>, DecodeError>(DecodeError::Malformed),
    }
}

/// Whether `r` is what a `<do-move>` message gives for the reading `ts`: its
/// board and dice, or an error when either cannot be decoded.
pub open spec fn do_move_of_reading(ts: Seq<XmlToken>, r: Result<(Board, Dice), DecodeError>) -> bool {
    match r {
        Ok((b, d)) => board_of_reading(ts, Ok::<Board, DecodeError>(b)) && dice_of_reading(
            ts,
            Ok::<Dice, DecodeError>(d),
        ),
        Err(_) => !(board_strings_from(ts, 0) matches Some(ss) && board_places(ss) is Some)
            || dice_values_from(ts, 0, false) is None,
    }
}

/// The color that a `<start-game>` message names.
pub fn deserialize_start_game(request: String) -> (r: Result<Color, DecodeError>)
    ensures
        exists|ts: Seq<XmlToken>| r == start_game_color(ts),
{
    let tokens = xml_tokens(request.as_str());
    let r = start_game_from_tokens(&tokens);
    r
}

/// The strings of a `<moves>` message: the tag of each move and every text.
pub fn move_string_to_vec_string(xml: String) -> (r: Result<Vec<String>, DecodeError>)
    ensures
        exists|ts: Seq<XmlToken>| move_strings_of_reading(ts, r),
{
    let tokens = xml_tokens(xml.as_str());
    let r = move_strings(&tokens);
    assert(move_strings_of_reading(tokens@, r));
    r
}

/// The moves of a `<moves>` message.
pub fn deserialize_moves(xml: String) -> (r: Result<Vec<Move>, DecodeError>)
    ensures
        exists|ts: Seq<XmlToken>| moves_of_reading(ts, r),
{
    let tokens = xml_tokens(xml.as_str());
    let r = match move_strings(&tokens) {
        Ok(strings) => vec_string_to_vec_move(strings),
        Err(e) => Err(e),
    };
    assert(moves_of_reading(tokens@, r));
    r
}

/// The strings of the board in a message, up to its `<dice>`.
pub fn xml_board_to_vec_xml_string(xml: String) -> (r: Result<Vec<String>, DecodeError>)
    ensures
        exists|ts: Seq<XmlToken>| board_strings_of_reading(ts, r),
{
    let tokens = xml_tokens(xml.as_str());
    let r = board_strings(&tokens);
    assert(board_strings_of_reading(tokens@, r));
    r
}

/// The board that a `read_token` reading describes.
fn board_from_tokens(tokens: &Vec<XmlToken>) -> (r: Result<Board, DecodeError>)
    ensures
        board_of_reading(tokens@, r),
{
    match board_strings(tokens) {
        Ok(strings) => split_up_vec_xml_string(strings),
        Err(e) => Err(e),
    }
}

/// The board of a message.
pub fn deserialize_board(xml: String) -> (r: Result<Board, DecodeError>)
    ensures
        exists|ts: Seq<XmlToken>| board_of_reading(ts, r),
{
    let tokens = xml_tokens(xml.as_str());
    let r = board_from_tokens(&tokens);
    r
}

/// The dice of a message: the numbers after its `<dice>` tag.
pub fn deserialize_dice(xml: String) -> (r: Result<Dice, DecodeError>)
    ensures
        exists|ts: Seq<XmlToken>| dice_of_reading(ts, r),
{
    let tokens = xml_tokens(xml.as_str());
    let r = dice_from_tokens(&tokens);
    assert(dice_of_reading(tokens@, r));
    r
}

/// The board and dice of a `<do-move>` message.
pub fn deserialize_do_move(xml: String) -> (r: Result<(Board, Dice), DecodeError>)
    ensures
        exists|ts: Seq<XmlToken>| do_move_of_reading(ts, r),
{
    let tokens = xml_tokens(xml.as_str());
    let board = match board_from_tokens(&tokens) {
        Ok(b) => b,
        Err(e) => {
            assert(do_move_of_reading(tokens@, Err(e)));
            return Err(e);
        },
    };
    let r = match dice_from_tokens(&tokens) {
        Ok(dice) => Ok((board, dice)),
        Err(e) => Err(e),
    };
    assert(do_move_of_reading(tokens@, r));
    r
}

/// The kind of a message that a player receives.
#[derive(Debug, Clone, Copy, PartialEq, Eq, Structural)]
pub enum XmlMessage {
    StartGame,
    DoMove,
    DoublesPenalty,
    Error,
}

/// The name of the first start tag of a reading, from token `i` on.
pub open spec fn first_tag_from(ts: Seq<XmlToken>, i: int) -> Option<Seq<char>>
    decreases ts.len() - i,
{
    if i < 0 || i >= ts.len() {
        None
    } else {
        match ts[i] {
            XmlToken::Start(name) => Some(name@),
            XmlToken::Eof => None,
            XmlToken::Malformed => None,
            _ => first_tag_from(ts, i + 1),
        }
    }
}

/// The kind of message whose first tag is `tag`.
pub open spec fn message_kind_of(tag: Option<Seq<char>>) -> XmlMessage {
    match tag {
        Some(t) => if t == "start-game"@ {
            XmlMessage::StartGame
        } else if t == "do-move"@ {
            XmlMessage::DoMove
        } else if t == "doubles-penalty"@ {
            XmlMessage::DoublesPenalty
        } else {
            XmlMessage::Error
        },
        None => XmlMessage::Error,
    }
}

/// The kind of the message read as `tokens`, by its first tag.
pub fn message_kind_from_tokens(tokens: &Vec<XmlToken>) -> (r: XmlMessage)
    ensures
        r == message_kind_of(first_tag_from(tokens@, 0)),
{
    let mut i: usize = 0;
    while i < tokens.len()
        invariant
            i <= tokens@.len(),
            first_tag_from(tokens@, 0) == first_tag_from(tokens@, i as int),
        decreases tokens@.len() - i,
    {
        match &tokens[i] {
            XmlToken::Start(name) => {
                return if same_text(name, "start-game") {
                    XmlMessage::StartGame
                } else if same_text(name, "do-move") {
                    XmlMessage::DoMove
                } else if same_text(name, "doubles-penalty") {
                    XmlMessage::DoublesPenalty
                } else {
                    XmlMessage::Error
                };
            },
            XmlToken::Eof => {
                return XmlMessage::Error;
            },
            XmlToken::Malformed => {
                return XmlMessage::Error;
            },
            _ => {},
        }
        i = i + 1;
    }
    XmlMessage::Error
}

/// The kind of a message, by its first tag.
pub fn deserialize_decision(xml: String) -> (r: XmlMessage)
    ensures
        exists|ts: Seq<XmlToken>| r == message_kind_of(#[trigger] first_tag_from(ts, 0)),
{
    let tokens = xml_tokens(xml.as_str());
    message_kind_from_tokens(&tokens)
}

} // verus!
