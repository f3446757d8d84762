//! The wire protocol between the client and the daemon: one line of text
//! each way.
//!
//! A request is a verb and its arguments, set apart by white space: `ON`,
//! `OFF`, `COLOR r g b`, `BRIGHTNESS level`, `ADJUST delta`. A response is
//! `OK` or `ERR`, a message, and a line feed.

use crate::error::{outcome, Error, ErrorView};
use crate::number::{
    decimal_i8, decimal_u8, hex_byte_text, hex_digit, hex_pair_value, i8_text,
    lemma_hex_byte_reads_back, lemma_i8_text_is_a_word, lemma_i8_text_reads_back,
    lemma_u8_text_is_a_word, lemma_u8_text_reads_back, lemma_upper_hex_char, parse_hex_pair,
    parse_i8, parse_u8, push_i8, push_u8, u8_text,
};
use crate::text::{
    after_first_space, blank, cut, find_space, has_prefix, is_text, lemma_no_words_iff_blank,
    lemma_trim_of_tight, lemma_words_after_word, lemma_words_of_solid, solid, split_words, tight,
    to_chars, trim, trim_span, whitespace, words,
};
use vstd::prelude::*;
use vstd::slice::slice_subrange;
use vstd::string::{StrSliceExecFns, StringExecFns};

verus! {

/// Where the daemon listens.
pub const SOCKET_PATH: &'static str = "/run/kbdlight.sock";

/// The group whose members may talk to the daemon.
pub const GROUP_NAME: &'static str = "kbdlight";

/// The user that owns the socket: the superuser.
pub const SOCKET_OWNER: u32 = 0;

/// The permission bits of the socket: its owner and its group may read and
/// write, nobody else.
pub const SOCKET_MODE: u32 = 0o660;

/// What a client asks of the daemon.
#[derive(Debug, Clone, Copy, PartialEq, Eq, Structural)]
pub enum Request {
    /// Full brightness.
    On,
    /// Backlight off.
    Off,
    /// A colour, by its red, green and blue parts.
    SetColor { r: u8, g: u8, b: u8 },
    /// A brightness level, 0 to 9.
    Brightness(u8),
    /// A change of the brightness level, -9 to 9.
    AdjustBrightness(i8),
}

/// The argument at place `k` among the words of a line, read as an unsigned
/// byte: `missing` names the defect where the line has no such word,
/// `invalid` where the word is no unsigned byte.
pub open spec fn argument_u8(
    line_words: Seq<Seq<char>>,
    k: int,
    missing: Seq<char>,
    invalid: Seq<char>,
) -> Result<u8, ErrorView> {
    if line_words.len() <= k {
        Err(ErrorView::Protocol(missing))
    } else {
        match decimal_u8(line_words[k]) {
            Some(v) => Ok(v),
            None => Err(ErrorView::Protocol(invalid)),
        }
    }
}

/// The argument at place `k` among the words of a line, read as a signed byte.
pub open spec fn argument_i8(
    line_words: Seq<Seq<char>>,
    k: int,
    missing: Seq<char>,
    invalid: Seq<char>,
) -> Result<i8, ErrorView> {
    if line_words.len() <= k {
        Err(ErrorView::Protocol(missing))
    } else {
        match decimal_i8(line_words[k]) {
            Some(v) => Ok(v),
            None => Err(ErrorView::Protocol(invalid)),
        }
    }
}

/// The request that the words of a `COLOR` line stand for.
pub open spec fn decode_color(line_words: Seq<Seq<char>>) -> Result<Request, ErrorView> {
    match argument_u8(line_words, 1, "missing R"@, "invalid R"@) {
        Err(e) => Err(e),
        Ok(r) => match argument_u8(line_words, 2, "missing G"@, "invalid G"@) {
            Err(e) => Err(e),
            Ok(g) => match argument_u8(line_words, 3, "missing B"@, "invalid B"@) {
                Err(e) => Err(e),
                Ok(b) => Ok(Request::SetColor { r, g, b }),
            },
        },
    }
}

impl Request {
    /// The line that stands for the request.
    pub open spec fn wire(self) -> Seq<char> {
        match self {
            Request::On => "ON"@,
            Request::Off => "OFF"@,
            Request::SetColor { r, g, b } => "COLOR "@ + u8_text(r) + " "@ + u8_text(g) + " "@
                + u8_text(b),
            Request::Brightness(level) => "BRIGHTNESS "@ + u8_text(level),
            Request::AdjustBrightness(delta) => "ADJUST "@ + i8_text(delta),
        }
    }

    /// The request that a line stands for, or the defect of the line.
    ///
    /// The first word is the verb, in upper case. The words after it are the
    /// arguments, in decimal; words beyond the last argument are not looked at.
    pub open spec fn decode(line: Seq<char>) -> Result<Request, ErrorView> {
        let w: Seq<Seq<char>> = words(line);
        if w.len() == 0 {
            Err(ErrorView::Protocol("empty command"@))
        } else if w[0] == "ON"@ {
            Ok(Request::On)
        } else if w[0] == "OFF"@ {
            Ok(Request::Off)
        } else if w[0] == "COLOR"@ {
            decode_color(w)
        } else if w[0] == "BRIGHTNESS"@ {
            match argument_u8(w, 1, "missing level"@, "invalid level"@) {
                Err(e) => Err(e),
                Ok(level) => Ok(Request::Brightness(level)),
            }
        } else if w[0] == "ADJUST"@ {
            match argument_i8(w, 1, "missing delta"@, "invalid delta"@) {
                Err(e) => Err(e),
                Ok(delta) => Ok(Request::AdjustBrightness(delta)),
            }
        } else {
            Err(ErrorView::Protocol("unknown command: "@ + w[0]))
        }
    }

    /// Reads a request from a line.
    pub fn parse(line: &str) -> (r: Result<Request, Error>)
        ensures
            outcome(r) == Request::decode(line@),
    {
        let chars: Vec<char> = to_chars(line);
        let s: &[char] = chars.as_slice();
        let spans: Vec<(usize, usize)> = split_words(s);
        assert(words(s@).len() == spans.len());
        if spans.len() == 0 {
            return Err(Error::Protocol(String::from_str("empty command")));
        }
        let start: usize = spans[0].0;
        let end: usize = spans[0].1;
        assert(words(s@)[0] == cut(s@, spans@)[0]);
        let verb: &[char] = slice_subrange(s, start, end);
        if is_text(verb, "ON") {
            Ok(Request::On)
        } else if is_text(verb, "OFF") {
            Ok(Request::Off)
        } else if is_text(verb, "COLOR") {
            let r: u8 = read_u8(s, &spans, 1, "missing R", "invalid R")?;
            let g: u8 = read_u8(s, &spans, 2, "missing G", "invalid G")?;
            let b: u8 = read_u8(s, &spans, 3, "missing B", "invalid B")?;
            Ok(Request::SetColor { r, g, b })
        } else if is_text(verb, "BRIGHTNESS") {
            let level: u8 = read_u8(s, &spans, 1, "missing level", "invalid level")?;
            Ok(Request::Brightness(level))
        } else if is_text(verb, "ADJUST") {
            let delta: i8 = read_i8(s, &spans, 1, "missing delta", "invalid delta")?;
            Ok(Request::AdjustBrightness(delta))
        } else {
            let mut defect: String = String::from_str("unknown command: ");
            defect.append(line.substring_char(start, end));
            Err(Error::Protocol(defect))
        }
    }

    /// Writes the request as a line, without a line feed. The request is
    /// read back from the line.
    pub fn to_line(&self) -> (line: String)
        ensures
            line@ == self.wire(),
            Request::decode(line@) == Ok::<Request, ErrorView>(*self),
    {
        proof {
            lemma_request_round_trip(*self);
        }
        match self {
            Request::On => String::from_str("ON"),
            Request::Off => String::from_str("OFF"),
            Request::SetColor { r, g, b } => {
                let mut line: String = String::from_str("COLOR ");
                push_u8(&mut line, *r);
                line.append(" ");
                push_u8(&mut line, *g);
                line.append(" ");
                push_u8(&mut line, *b);
                line
            },
            Request::Brightness(level) => {
                let mut line: String = String::from_str("BRIGHTNESS ");
                push_u8(&mut line, *level);
                line
            },
            Request::AdjustBrightness(delta) => {
                let mut line: String = String::from_str("ADJUST ");
                push_i8(&mut line, *delta);
                line
            },
        }
    }
}

/// Reads the word at place `k` as an unsigned byte.
fn read_u8(s: &[char], spans: &Vec<(usize, usize)>, k: usize, missing: &str, invalid: &str) -> (r:
    Result<u8, Error>)
    requires
        cut(s@, spans@) == words(s@),
        forall|i: int| 0 <= i < spans.len() ==> (#[trigger] spans[i]).0 <= spans[i].1 <= s.len(),
    ensures
        outcome(r) == argument_u8(words(s@), k as int, missing@, invalid@),
{
    assert(words(s@).len() == spans.len());
    if spans.len() <= k {
        return Err(Error::Protocol(String::from_str(missing)));
    }
    assert(words(s@)[k as int] == cut(s@, spans@)[k as int]);
    match parse_u8(slice_subrange(s, spans[k].0, spans[k].1)) {
        Some(v) => Ok(v),
        None => Err(Error::Protocol(String::from_str(invalid))),
    }
}

/// Reads the word at place `k` as a signed byte.
fn read_i8(s: &[char], spans: &Vec<(usize, usize)>, k: usize, missing: &str, invalid: &str) -> (r:
    Result<i8, Error>)
    requires
        cut(s@, spans@) == words(s@),
        forall|i: int| 0 <= i < spans.len() ==> (#[trigger] spans[i]).0 <= spans[i].1 <= s.len(),
    ensures
        outcome(r) == argument_i8(words(s@), k as int, missing@, invalid@),
{
    assert(words(s@).len() == spans.len());
    if spans.len() <= k {
        return Err(Error::Protocol(String::from_str(missing)));
    }
    assert(words(s@)[k as int] == cut(s@, spans@)[k as int]);
    match parse_i8(slice_subrange(s, spans[k].0, spans[k].1)) {
        Some(v) => Ok(v),
        None => Err(Error::Protocol(String::from_str(invalid))),
    }
}

/// `s` without the `#` that may stand in front of a colour.
pub open spec fn strip_hash(s: Seq<char>) -> Seq<char> {
    if s.len() > 0 && s[0] == '#' {
        s.drop_first()
    } else {
        s
    }
}

/// `s` is six hexadecimal digits.
pub open spec fn six_hex_digits(s: Seq<char>) -> bool {
    s.len() == 6 && forall|i: int| 0 <= i < 6 ==> hex_digit(#[trigger] s[i])
}

/// The colour that `s` stands for: six hexadecimal digits, two each for red,
/// green and blue, behind an optional `#`. Anything else is refused, and the
/// failure holds the text behind the `#`.
pub open spec fn hex_color(s: Seq<char>) -> Result<(u8, u8, u8), ErrorView> {
    let digits: Seq<char> = strip_hash(s);
    if six_hex_digits(digits) {
        Ok(
            (
                hex_pair_value(digits[0], digits[1]) as u8,
                hex_pair_value(digits[2], digits[3]) as u8,
                hex_pair_value(digits[4], digits[5]) as u8,
            ),
        )
    } else {
        Err(ErrorView::InvalidColor(digits))
    }
}

/// Reads a colour from `RRGGBB` or `#RRGGBB`.
pub fn parse_hex_color(s: &str) -> (r: Result<(u8, u8, u8), Error>)
    ensures
        outcome(r) == hex_color(s@),
{
    let chars: Vec<char> = to_chars(s);
    let n: usize = chars.len();
    let start: usize = if n > 0 && chars[0] == '#' {
        1
    } else {
        0
    };
    let ghost digits: Seq<char> = strip_hash(s@);
    assert(digits =~= s@.subrange(start as int, n as int));
    if n - start == 6 {
        let red: Option<u8> = parse_hex_pair(chars[start], chars[start + 1]);
        let green: Option<u8> = parse_hex_pair(chars[start + 2], chars[start + 3]);
        let blue: Option<u8> = parse_hex_pair(chars[start + 4], chars[start + 5]);
        proof {
            assert(digits[0] == chars@[start as int]);
            assert(digits[1] == chars@[start + 1]);
            assert(digits[2] == chars@[start + 2]);
            assert(digits[3] == chars@[start + 3]);
            assert(digits[4] == chars@[start + 4]);
            assert(digits[5] == chars@[start + 5]);
        }
        match (red, green, blue) {
            (Some(r), Some(g), Some(b)) => {
                return Ok((r, g, b));
            },
            _ => {},
        }
    }
    Err(Error::InvalidColor(String::from_str(s.substring_char(start, n))))
}

/// The line that reports success: `OK`, the message behind a space if there
/// is one, and a line feed.
pub open spec fn ok_line(msg: Seq<char>) -> Seq<char> {
    if msg.len() == 0 {
        "OK\n"@
    } else {
        "OK "@ + msg + "\n"@
    }
}

/// The line that reports a failure: `ERR`, a space, the message, and a line
/// feed.
pub open spec fn err_line(msg: Seq<char>) -> Seq<char> {
    "ERR "@ + msg + "\n"@
}

/// Writes the response that reports success with `msg`.
pub fn ok_info_response(msg: &str) -> (line: String)
    ensures
        line@ == ok_line(msg@),
{
    if msg.unicode_len() == 0 {
        String::from_str("OK\n")
    } else {
        let mut line: String = String::from_str("OK ");
        line.append(msg);
        line.append("\n");
        line
    }
}

/// Writes the response that reports a failure with `msg`.
pub fn err_response(msg: &str) -> (line: String)
    ensures
        line@ == err_line(msg@),
{
    let mut line: String = String::from_str("ERR ");
    line.append(msg);
    line.append("\n");
    line
}

/// What the daemon answers.
#[derive(Debug, Clone, PartialEq, Eq)]
pub enum Response {
    /// The request was carried out.
    Success(String),
    /// The request was refused or failed.
    Failure(String),
}

/// A `Response` with its message as a sequence of characters.
pub enum ResponseView {
    Success(Seq<char>),
    Failure(Seq<char>),
}

impl View for Response {
    type V = ResponseView;

    open spec fn view(&self) -> ResponseView {
        match self {
            Response::Success(msg) => ResponseView::Success(msg@),
            Response::Failure(msg) => ResponseView::Failure(msg@),
        }
    }
}

impl ResponseView {
    /// The line that stands for the response.
    pub open spec fn wire(self) -> Seq<char> {
        match self {
            ResponseView::Success(msg) => ok_line(msg),
            ResponseView::Failure(msg) => err_line(msg),
        }
    }

    /// The response that a line stands for, the white space at its ends set
    /// aside. A line that begins with `ERR` is a failure; its message is what
    /// follows the first space, or the whole line where it holds no space.
    /// Any other line is a success; its message is the line, without the
    /// `OK ` that it may begin with.
    pub open spec fn decode(line: Seq<char>) -> ResponseView {
        let text: Seq<char> = trim(line);
        if "ERR"@.is_prefix_of(text) {
            match after_first_space(text) {
                Some(msg) => ResponseView::Failure(msg),
                None => ResponseView::Failure(text),
            }
        } else if "OK "@.is_prefix_of(text) {
            ResponseView::Success(text.skip(3))
        } else {
            ResponseView::Success(text)
        }
    }
}

impl Response {
    /// Writes the response as a line, line feed included.
    pub fn to_line(&self) -> (line: String)
        ensures
            line@ == self@.wire(),
    {
        match self {
            Response::Success(msg) => ok_info_response(msg.as_str()),
            Response::Failure(msg) => err_response(msg.as_str()),
        }
    }

    /// Reads a response from a line.
    pub fn parse(line: &str) -> (r: Response)
        ensures
            r@ == ResponseView::decode(line@),
    {
        let chars: Vec<char> = to_chars(line);
        let (a, b) = trim_span(chars.as_slice());
        let text: &[char] = slice_subrange(chars.as_slice(), a, b);
        if has_prefix(text, "ERR") {
            match find_space(text) {
                Some(i) => {
                    assert(text@.skip(i + 1) =~= line@.subrange(a + i + 1, b as int));
                    Response::Failure(String::from_str(line.substring_char(a + i + 1, b)))
                },
                None => Response::Failure(String::from_str(line.substring_char(a, b))),
            }
        } else if has_prefix(text, "OK ") {
            proof {
                reveal_strlit("OK ");
                assert(text@.skip(3) =~= line@.subrange(a + 3, b as int));
            }
            Response::Success(String::from_str(line.substring_char(a + 3, b)))
        } else {
            Response::Success(String::from_str(line.substring_char(a, b)))
        }
    }
}

/// What the proofs below need to know of the five verbs: how long each is,
/// that none holds white space, and how each reads with a space behind it.
proof fn lemma_verbs()
    ensures
        "ON"@.len() == 2,
        "OFF"@.len() == 3,
        "COLOR"@.len() == 5,
        "BRIGHTNESS"@.len() == 10,
        "ADJUST"@.len() == 6,
        solid("ON"@),
        solid("OFF"@),
        solid("COLOR"@),
        solid("BRIGHTNESS"@),
        solid("ADJUST"@),
        "COLOR "@ == "COLOR"@ + seq![' '],
        "BRIGHTNESS "@ == "BRIGHTNESS"@ + seq![' '],
        "ADJUST "@ == "ADJUST"@ + seq![' '],
        " "@ == seq![' '],
{
    reveal_strlit("ON");
    reveal_strlit("OFF");
    reveal_strlit("COLOR");
    reveal_strlit("BRIGHTNESS");
    reveal_strlit("ADJUST");
    reveal_strlit("COLOR ");
    reveal_strlit("BRIGHTNESS ");
    reveal_strlit("ADJUST ");
    reveal_strlit(" ");
    assert("COLOR "@ =~= "COLOR"@ + seq![' ']);
    assert("BRIGHTNESS "@ =~= "BRIGHTNESS"@ + seq![' ']);
    assert("ADJUST "@ =~= "ADJUST"@ + seq![' ']);
    assert(" "@ =~= seq![' ']);
}

/// The words of a `COLOR` line as it is written.
proof fn lemma_color_line_words(r: u8, g: u8, b: u8)
    ensures
        words(Request::SetColor { r, g, b }.wire()) == seq![
            "COLOR"@,
            u8_text(r),
            u8_text(g),
            u8_text(b),
        ],
{
    lemma_verbs();
    let line: Seq<char> = Request::SetColor { r, g, b }.wire();
    let verb: Seq<char> = "COLOR"@;
    let red: Seq<char> = u8_text(r);
    let green: Seq<char> = u8_text(g);
    let blue: Seq<char> = u8_text(b);
    lemma_u8_text_is_a_word(r);
    lemma_u8_text_is_a_word(g);
    lemma_u8_text_is_a_word(b);
    let after_red: Seq<char> = green + seq![' '] + blue;
    let after_verb: Seq<char> = red + seq![' '] + after_red;
    assert(line =~= verb + seq![' '] + after_verb);
    lemma_words_after_word(verb, after_verb);
    lemma_words_after_word(red, after_red);
    lemma_words_after_word(green, blue);
    lemma_words_of_solid(blue);
    assert(words(line) =~= seq![verb, red, green, blue]);
}

/// The words of a line of a verb and one argument.
proof fn lemma_pair_line_words(verb: Seq<char>, argument: Seq<char>)
    requires
        solid(verb),
        verb.len() > 0,
        solid(argument),
        argument.len() > 0,
    ensures
        words(verb + seq![' '] + argument) == seq![verb, argument],
{
    lemma_words_after_word(verb, argument);
    lemma_words_of_solid(argument);
    assert(seq![verb] + seq![argument] =~= seq![verb, argument]);
}

/// A request written as a line is read back from that line as the same
/// request, whatever the request.
pub proof fn lemma_request_round_trip(request: Request)
    ensures
        Request::decode(request.wire()) == Ok::<Request, ErrorView>(request),
{
    lemma_verbs();
    match request {
        Request::On => {
            lemma_words_of_solid("ON"@);
        },
        Request::Off => {
            lemma_words_of_solid("OFF"@);
        },
        Request::SetColor { r, g, b } => {
            lemma_color_line_words(r, g, b);
            lemma_u8_text_reads_back(r);
            lemma_u8_text_reads_back(g);
            lemma_u8_text_reads_back(b);
        },
        Request::Brightness(level) => {
            lemma_u8_text_is_a_word(level);
            lemma_u8_text_reads_back(level);
            lemma_pair_line_words("BRIGHTNESS"@, u8_text(level));
        },
        Request::AdjustBrightness(delta) => {
            lemma_i8_text_is_a_word(delta);
            lemma_i8_text_reads_back(delta);
            lemma_pair_line_words("ADJUST"@, i8_text(delta));
        },
    }
}

/// A line that is empty or white space throughout is refused as an empty
/// command.
pub proof fn lemma_blank_line_is_refused(line: Seq<char>)
    requires
        blank(line),
    ensures
        Request::decode(line) == Err::<Request, ErrorView>(
            ErrorView::Protocol("empty command"@),
        ),
{
    lemma_no_words_iff_blank(line);
}

/// Whatever line is refused is refused as a malformed line.
pub proof fn lemma_refusal_is_a_protocol_error(line: Seq<char>)
    ensures
        Request::decode(line) matches Err(e) ==> e is Protocol,
{
}

/// Whether `word` is one of the five verbs.
pub open spec fn verb(word: Seq<char>) -> bool {
    ||| word == "ON"@
    ||| word == "OFF"@
    ||| word == "COLOR"@
    ||| word == "BRIGHTNESS"@
    ||| word == "ADJUST"@
}

/// What `decode` has to say of a protocol error that names `defect`.
pub open spec fn refused(defect: Seq<char>) -> Result<Request, ErrorView> {
    Err(ErrorView::Protocol(defect))
}

/// A line whose first word is no verb is refused, and the refusal names
/// the word.
pub proof fn lemma_unknown_verb_is_refused(line: Seq<char>)
    requires
        !blank(line),
        !verb(words(line)[0]),
    ensures
        Request::decode(line) == refused("unknown command: "@ + words(line)[0]),
{
    lemma_no_words_iff_blank(line);
}

/// A line that ends before the last argument of its verb is refused, and
/// the refusal names the first argument that is missing.
pub proof fn lemma_missing_argument_is_refused(line: Seq<char>)
    requires
        words(line).len() > 0,
    ensures
        words(line)[0] == "COLOR"@ && words(line).len() == 1 ==> Request::decode(line) == refused(
            "missing R"@,
        ),
        words(line)[0] == "COLOR"@ && words(line).len() == 2 && decimal_u8(words(line)[1]) is Some
            ==> Request::decode(line) == refused("missing G"@),
        words(line)[0] == "COLOR"@ && words(line).len() == 3 && decimal_u8(words(line)[1]) is Some
            && decimal_u8(words(line)[2]) is Some ==> Request::decode(line) == refused(
            "missing B"@,
        ),
        words(line)[0] == "BRIGHTNESS"@ && words(line).len() == 1 ==> Request::decode(line)
            == refused("missing level"@),
        words(line)[0] == "ADJUST"@ && words(line).len() == 1 ==> Request::decode(line) == refused(
            "missing delta"@,
        ),
{
    lemma_verbs();
}

/// A line with an argument that is no number of the kind its verb takes is
/// refused, and the refusal names the first such argument.
pub proof fn lemma_argument_that_is_no_number_is_refused(line: Seq<char>)
    requires
        words(line).len() > 0,
    ensures
        words(line)[0] == "COLOR"@ && words(line).len() >= 2 && decimal_u8(words(line)[1]) is None
            ==> Request::decode(line) == refused("invalid R"@),
        words(line)[0] == "COLOR"@ && words(line).len() >= 3 && decimal_u8(words(line)[1]) is Some
            && decimal_u8(words(line)[2]) is None ==> Request::decode(line) == refused(
            "invalid G"@,
        ),
        words(line)[0] == "COLOR"@ && words(line).len() >= 4 && decimal_u8(words(line)[1]) is Some
            && decimal_u8(words(line)[2]) is Some && decimal_u8(words(line)[3]) is None
            ==> Request::decode(line) == refused("invalid B"@),
        words(line)[0] == "BRIGHTNESS"@ && words(line).len() >= 2 && decimal_u8(
            words(line)[1],
        ) is None ==> Request::decode(line) == refused("invalid level"@),
        words(line)[0] == "ADJUST"@ && words(line).len() >= 2 && decimal_i8(words(line)[1]) is None
            ==> Request::decode(line) == refused("invalid delta"@),
{
    lemma_verbs();
}

/// A line is read as a request exactly if its first word is a verb and the
/// words behind it are the numbers that the verb takes.
pub proof fn lemma_accepted_lines(line: Seq<char>)
    ensures
        Request::decode(line) is Ok <==> {
            &&& words(line).len() > 0
            &&& {
                ||| words(line)[0] == "ON"@
                ||| words(line)[0] == "OFF"@
                ||| {
                    &&& words(line)[0] == "COLOR"@
                    &&& words(line).len() >= 4
                    &&& decimal_u8(words(line)[1]) is Some
                    &&& decimal_u8(words(line)[2]) is Some
                    &&& decimal_u8(words(line)[3]) is Some
                }
                ||| {
                    &&& words(line)[0] == "BRIGHTNESS"@
                    &&& words(line).len() >= 2
                    &&& decimal_u8(words(line)[1]) is Some
                }
                ||| {
                    &&& words(line)[0] == "ADJUST"@
                    &&& words(line).len() >= 2
                    &&& decimal_i8(words(line)[1]) is Some
                }
            }
        },
{
    lemma_verbs();
}

/// A colour written as `#` and six hexadecimal digits is read back as that
/// colour.
pub proof fn lemma_hex_color_reads_back(r: u8, g: u8, b: u8)
    ensures
        hex_color(seq!['#'] + hex_byte_text(r) + hex_byte_text(g) + hex_byte_text(b)) == Ok::<
            (u8, u8, u8),
            ErrorView,
        >((r, g, b)),
        hex_color(hex_byte_text(r) + hex_byte_text(g) + hex_byte_text(b)) == Ok::<
            (u8, u8, u8),
            ErrorView,
        >((r, g, b)),
{
    lemma_hex_byte_reads_back(r);
    lemma_hex_byte_reads_back(g);
    lemma_hex_byte_reads_back(b);
    let digits: Seq<char> = hex_byte_text(r) + hex_byte_text(g) + hex_byte_text(b);
    let marked: Seq<char> = seq!['#'] + hex_byte_text(r) + hex_byte_text(g) + hex_byte_text(b);
    assert(marked.drop_first() =~= digits);
    assert(digits.len() == 6);
    assert(digits[0] == hex_byte_text(r)[0] && digits[1] == hex_byte_text(r)[1]);
    assert(digits[2] == hex_byte_text(g)[0] && digits[3] == hex_byte_text(g)[1]);
    assert(digits[4] == hex_byte_text(b)[0] && digits[5] == hex_byte_text(b)[1]);
    assert(digits[0] != '#') by {
        lemma_upper_hex_char(r as int / 16);
    }
    assert(strip_hash(digits) == digits);
    assert(strip_hash(marked) == digits);
}

/// A response is one line: where the message holds no line feed, the line
/// feed at the end of the response is its only one.
pub proof fn lemma_response_is_one_line(msg: Seq<char>)
    requires
        forall|i: int| 0 <= i < msg.len() ==> msg[i] != '\n',
    ensures
        ok_line(msg).len() > 0,
        ok_line(msg).last() == '\n',
        forall|i: int| 0 <= i < ok_line(msg).len() - 1 ==> ok_line(msg)[i] != '\n',
        err_line(msg).len() > 0,
        err_line(msg).last() == '\n',
        forall|i: int| 0 <= i < err_line(msg).len() - 1 ==> err_line(msg)[i] != '\n',
{
    reveal_strlit("OK\n");
    reveal_strlit("OK ");
    reveal_strlit("ERR ");
    reveal_strlit("\n");
    assert forall|i: int| 0 <= i < ok_line(msg).len() - 1 implies ok_line(msg)[i] != '\n' by {
        if msg.len() > 0 && i >= 3 {
            assert(ok_line(msg)[i] == msg[i - 3]);
        }
    }
    assert forall|i: int| 0 <= i < err_line(msg).len() - 1 implies err_line(msg)[i] != '\n' by {
        if i >= 4 {
            assert(err_line(msg)[i] == msg[i - 4]);
        }
    }
}

/// A response whose message is tight is read back from its line as the
/// same response.
pub proof fn lemma_response_round_trip(response: ResponseView)
    requires
        match response {
            ResponseView::Success(msg) => tight(msg),
            ResponseView::Failure(msg) => tight(msg),
        },
    ensures
        ResponseView::decode(response.wire()) == response,
{
    reveal_strlit("OK ");
    reveal_strlit("ERR ");
    reveal_strlit("ERR");
    reveal_strlit("\n");
    assert(whitespace("\n"@[0]));
    match response {
        ResponseView::Success(msg) => {
            let text: Seq<char> = "OK "@ + msg;
            assert(response.wire() =~= text + "\n"@);
            assert(text[0] == 'O');
            assert(text.last() == msg.last());
            lemma_trim_of_tight(text, "\n"@);
            assert(!"ERR"@.is_prefix_of(text)) by {
                if "ERR"@.is_prefix_of(text) {
                    assert("ERR"@[0] == text.subrange(0, 3)[0]);
                }
            }
            assert("OK "@.is_prefix_of(text)) by {
                assert("OK "@ =~= text.subrange(0, 3));
            }
            assert(text.skip(3) =~= msg);
        },
        ResponseView::Failure(msg) => {
            let text: Seq<char> = "ERR "@ + msg;
            assert(response.wire() =~= text + "\n"@);
            assert(text[0] == 'E');
            assert(text.last() == msg.last());
            lemma_trim_of_tight(text, "\n"@);
            assert("ERR"@.is_prefix_of(text)) by {
                assert("ERR"@ =~= text.subrange(0, 3));
            }
            let t1: Seq<char> = text.drop_first();
            let t2: Seq<char> = t1.drop_first();
            let t3: Seq<char> = t2.drop_first();
            assert(text[0] == 'E' && t1[0] == 'R' && t2[0] == 'R' && t3[0] == ' ');
            assert(t3.drop_first() =~= msg);
            assert(after_first_space(t3) == Some(msg));
            assert(after_first_space(t2) == Some(msg));
            assert(after_first_space(t1) == Some(msg));
            assert(after_first_space(text) == Some(msg));
        },
    }
}

} // verus!
