//! A conservative reading of block map XML: the text split into tags and
//! character data, refusing constructs (entity references, CDATA, DOCTYPE)
//! under which the characters would not be what an XML reader reports.

use vstd::prelude::*;

verus! {

/// What a piece of the text is.
#[derive(Clone, Copy, Debug, PartialEq, Eq, Structural)]
pub enum TokenKind {
    /// A start tag (or an empty-element tag); the span is its name.
    Start,
    /// An end tag; the span is its name.
    End,
    /// Character data between markup; the span is the characters.
    Text,
}

/// A piece of the text: its kind, the span `from..to` of its name or
/// characters, and for a start tag whether it closes itself (`<a/>`).
#[derive(Clone, Copy, Debug, PartialEq, Eq, Structural)]
pub struct Token {
    pub kind: TokenKind,
    pub from: usize,
    pub to: usize,
    pub empty: bool,
}

/// Which quote an attribute value inside a tag is open with.
#[derive(Clone, Copy, Debug, PartialEq, Eq, Structural)]
pub enum Quote {
    Unquoted,
    Double,
    Single,
}

/// Where the reading stands after a character.
#[derive(Clone, Copy, Debug, PartialEq, Eq, Structural)]
pub enum LexMode {
    /// Between markup, no characters pending.
    Outside,
    /// Inside character data that began at this index.
    Data(usize),
    /// Just after `<` (at this index).
    Open,
    /// After `<!`.
    Bang,
    /// After `<!-`.
    BangDash,
    /// Inside a comment, after this many (at most two) dashes.
    Comment(u8),
    /// Inside a processing instruction; whether the last character was `?`.
    Instruction(bool),
    /// Reading the name of a start tag that began at this index.
    StartName(usize),
    /// Reading the name of an end tag that began at this index.
    EndName(usize),
    /// Past the name `from..to` of a tag; inside `quote`; whether the last
    /// character was `/`.
    Attributes { end_tag: bool, from: usize, to: usize, quote: Quote, slash: bool },
}

/// White space that ends a tag name and that numbers may be padded with.
pub open spec fn is_space(c: char) -> bool {
    c == ' ' || c == '\t' || c == '\n' || c == '\r'
}

/// A quote, which opens or closes an attribute value anywhere inside a tag,
/// its name included.
pub open spec fn is_quote(c: char) -> bool {
    c == '"' || c == '\''
}

/// The token that a tag read up to `>` gives.
pub open spec fn tag_token(end_tag: bool, from: usize, to: usize, slash: bool) -> Token {
    if end_tag {
        Token { kind: TokenKind::End, from, to, empty: false }
    } else {
        Token { kind: TokenKind::Start, from, to, empty: slash }
    }
}

/// One character `c`, at index `i`, read in `mode`: the next mode and the
/// token that ends here, or nothing when the text is refused.
pub open spec fn lex_step(mode: LexMode, i: usize, c: char) -> Option<(LexMode, Option<Token>)> {
    match mode {
        LexMode::Outside => if c == '<' {
            Some((LexMode::Open, None))
        } else if c == '&' {
            None
        } else {
            Some((LexMode::Data(i), None))
        },
        LexMode::Data(from) => if c == '<' {
            Some((LexMode::Open, Some(Token { kind: TokenKind::Text, from, to: i, empty: false })))
        } else if c == '&' {
            None
        } else {
            Some((LexMode::Data(from), None))
        },
        LexMode::Open => if c == '!' {
            Some((LexMode::Bang, None))
        } else if c == '?' {
            Some((LexMode::Instruction(true), None))
        } else if c == '/' {
            if i < usize::MAX {
                Some((LexMode::EndName((i + 1) as usize), None))
            } else {
                None
            }
        } else if is_space(c) || c == '>' || c == '<' || is_quote(c) {
            None
        } else {
            Some((LexMode::StartName(i), None))
        },
        LexMode::Bang => if c == '-' {
            Some((LexMode::BangDash, None))
        } else {
            None
        },
        LexMode::BangDash => if c == '-' {
            Some((LexMode::Comment(0), None))
        } else {
            None
        },
        LexMode::Comment(d) => if c == '-' {
            Some((LexMode::Comment(if d >= 2 { 2 } else { (d + 1) as u8 }), None))
        } else if c == '>' && d >= 2 {
            Some((LexMode::Outside, None))
        } else {
            Some((LexMode::Comment(0), None))
        },
        LexMode::Instruction(q) => if c == '>' && q {
            Some((LexMode::Outside, None))
        } else {
            Some((LexMode::Instruction(c == '?'), None))
        },
        LexMode::StartName(from) => if c == '<' || is_quote(c) {
            None
        } else if c == '>' {
            Some((LexMode::Outside, Some(tag_token(false, from, i, false))))
        } else if is_space(c) || c == '/' {
            Some((
                LexMode::Attributes {
                    end_tag: false,
                    from,
                    to: i,
                    quote: Quote::Unquoted,
                    slash: c == '/',
                },
                None,
            ))
        } else {
            Some((LexMode::StartName(from), None))
        },
        LexMode::EndName(from) => if c == '<' || is_quote(c) {
            None
        } else if c == '>' || is_space(c) || c == '/' {
            if from == i {
                None
            } else if c == '>' {
                Some((LexMode::Outside, Some(tag_token(true, from, i, false))))
            } else {
                Some((
                    LexMode::Attributes {
                        end_tag: true,
                        from,
                        to: i,
                        quote: Quote::Unquoted,
                        slash: c == '/',
                    },
                    None,
                ))
            }
        } else {
            Some((LexMode::EndName(from), None))
        },
        LexMode::Attributes { end_tag, from, to, quote, slash } => if c == '<' {
            None
        } else {
            match quote {
                Quote::Unquoted => if c == '>' {
                    Some((LexMode::Outside, Some(tag_token(end_tag, from, to, slash))))
                } else if c == '"' {
                    Some((LexMode::Attributes { end_tag, from, to, quote: Quote::Double, slash: false }, None))
                } else if c == '\'' {
                    Some((LexMode::Attributes { end_tag, from, to, quote: Quote::Single, slash: false }, None))
                } else {
                    Some((LexMode::Attributes { end_tag, from, to, quote, slash: c == '/' }, None))
                },
                Quote::Double => if c == '"' {
                    Some((LexMode::Attributes { end_tag, from, to, quote: Quote::Unquoted, slash: false }, None))
                } else {
                    Some((LexMode::Attributes { end_tag, from, to, quote, slash: false }, None))
                },
                Quote::Single => if c == '\'' {
                    Some((LexMode::Attributes { end_tag, from, to, quote: Quote::Unquoted, slash: false }, None))
                } else {
                    Some((LexMode::Attributes { end_tag, from, to, quote, slash: false }, None))
                },
            }
        },
    }
}

/// The reading after the first `i` characters of `s`: the mode and the
/// tokens so far, or nothing once the text is refused.
pub open spec fn lex_upto(s: Seq<char>, i: int) -> Option<(LexMode, Seq<Token>)>
    decreases i,
{
    if i <= 0 {
        Some((LexMode::Outside, Seq::empty()))
    } else {
        match lex_upto(s, i - 1) {
            None => None,
            Some((mode, toks)) => match lex_step(mode, (i - 1) as usize, s[i - 1]) {
                None => None,
                Some((next, emitted)) => Some((
                    next,
                    match emitted {
                        Some(t) => toks.push(t),
                        None => toks,
                    },
                )),
            },
        }
    }
}

/// The tokens of `s`, or nothing when `s` is refused: when it holds an
/// entity or character reference, a CDATA section or a DOCTYPE, a `<` inside
/// a tag, a quote inside a tag name, a tag without a name, or ends inside
/// markup.
pub open spec fn lex(s: Seq<char>) -> Option<Seq<Token>> {
    match lex_upto(s, s.len() as int) {
        Some((LexMode::Outside, toks)) => Some(toks),
        Some((LexMode::Data(from), toks)) => Some(
            toks.push(Token { kind: TokenKind::Text, from, to: s.len() as usize, empty: false }),
        ),
        _ => None,
    }
}

fn lex_step_exec(mode: LexMode, i: usize, c: char) -> (r: Option<(LexMode, Option<Token>)>)
    ensures
        r == lex_step(mode, i, c),
{
    let space = c == ' ' || c == '\t' || c == '\n' || c == '\r';
    let quoting = c == '"' || c == '\'';
    match mode {
        LexMode::Outside => if c == '<' {
            Some((LexMode::Open, None))
        } else if c == '&' {
            None
        } else {
            Some((LexMode::Data(i), None))
        },
        LexMode::Data(from) => if c == '<' {
            Some((LexMode::Open, Some(Token { kind: TokenKind::Text, from, to: i, empty: false })))
        } else if c == '&' {
            None
        } else {
            Some((LexMode::Data(from), None))
        },
        LexMode::Open => if c == '!' {
            Some((LexMode::Bang, None))
        } else if c == '?' {
            Some((LexMode::Instruction(true), None))
        } else if c == '/' {
            if i < usize::MAX {
                Some((LexMode::EndName(i + 1), None))
            } else {
                None
            }
        } else if space || c == '>' || c == '<' || quoting {
            None
        } else {
            Some((LexMode::StartName(i), None))
        },
        LexMode::Bang => if c == '-' {
            Some((LexMode::BangDash, None))
        } else {
            None
        },
        LexMode::BangDash => if c == '-' {
            Some((LexMode::Comment(0), None))
        } else {
            None
        },
        LexMode::Comment(d) => if c == '-' {
            Some((LexMode::Comment(if d >= 2 { 2 } else { d + 1 }), None))
        } else if c == '>' && d >= 2 {
            Some((LexMode::Outside, None))
        } else {
            Some((LexMode::Comment(0), None))
        },
        LexMode::Instruction(q) => if c == '>' && q {
            Some((LexMode::Outside, None))
        } else {
            Some((LexMode::Instruction(c == '?'), None))
        },
        LexMode::StartName(from) => if c == '<' || quoting {
            None
        } else if c == '>' {
            Some((LexMode::Outside, Some(Token { kind: TokenKind::Start, from, to: i, empty: false })))
        } else if space || c == '/' {
            Some((
                LexMode::Attributes {
                    end_tag: false,
                    from,
                    to: i,
                    quote: Quote::Unquoted,
                    slash: c == '/',
                },
                None,
            ))
        } else {
            Some((LexMode::StartName(from), None))
        },
        LexMode::EndName(from) => if c == '<' || quoting {
            None
        } else if c == '>' || space || c == '/' {
            if from == i {
                None
            } else if c == '>' {
                Some((LexMode::Outside, Some(Token { kind: TokenKind::End, from, to: i, empty: false })))
            } else {
                Some((
                    LexMode::Attributes {
                        end_tag: true,
                        from,
                        to: i,
                        quote: Quote::Unquoted,
                        slash: c == '/',
                    },
                    None,
                ))
            }
        } else {
            Some((LexMode::EndName(from), None))
        },
        LexMode::Attributes { end_tag, from, to, quote, slash } => if c == '<' {
            None
        } else {
            match quote {
                Quote::Unquoted => if c == '>' {
                    let t = if end_tag {
                        Token { kind: TokenKind::End, from, to, empty: false }
                    } else {
                        Token { kind: TokenKind::Start, from, to, empty: slash }
                    };
                    Some((LexMode::Outside, Some(t)))
                } else if c == '"' {
                    Some((LexMode::Attributes { end_tag, from, to, quote: Quote::Double, slash: false }, None))
                } else if c == '\'' {
                    Some((LexMode::Attributes { end_tag, from, to, quote: Quote::Single, slash: false }, None))
                } else {
                    Some((LexMode::Attributes { end_tag, from, to, quote, slash: c == '/' }, None))
                },
                Quote::Double => if c == '"' {
                    Some((LexMode::Attributes { end_tag, from, to, quote: Quote::Unquoted, slash: false }, None))
                } else {
                    Some((LexMode::Attributes { end_tag, from, to, quote, slash: false }, None))
                },
                Quote::Single => if c == '\'' {
                    Some((LexMode::Attributes { end_tag, from, to, quote: Quote::Unquoted, slash: false }, None))
                } else {
                    Some((LexMode::Attributes { end_tag, from, to, quote, slash: false }, None))
                },
            }
        },
    }
}

/// The tokens of the characters `s`, or nothing when the text is refused.
pub fn tokenize(s: &Vec<char>) -> (r: Option<Vec<Token>>)
    ensures
        match r {
            Some(t) => lex(s@) == Some(t@),
            None => lex(s@) is None,
        },
{
    let n = s.len();
    let mut mode = LexMode::Outside;
    let mut toks: Vec<Token> = Vec::new();
    for i in 0..n
        invariant
            n == s@.len(),
            lex_upto(s@, i as int) == Some((mode, toks@)),
    {
        match lex_step_exec(mode, i, s[i]) {
            None => {
                proof {
                    lemma_refused_stays_refused(s@, i as int + 1);
                }
                return None;
            },
            Some((next, emitted)) => {
                mode = next;
                match emitted {
                    Some(t) => toks.push(t),
                    None => {},
                }
            },
        }
    }
    match mode {
        LexMode::Outside => Some(toks),
        LexMode::Data(from) => {
            toks.push(Token { kind: TokenKind::Text, from, to: n, empty: false });
            Some(toks)
        },
        _ => None,
    }
}

proof fn lemma_refused_stays_refused(s: Seq<char>, i: int)
    requires
        0 <= i <= s.len(),
        lex_upto(s, i) is None,
    ensures
        lex(s) is None,
    decreases s.len() - i,
{
    if i < s.len() {
        lemma_refused_stays_refused(s, i + 1);
    }
}

} // verus!
