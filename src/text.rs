use vstd::prelude::*;
use quick_xml::events::Event;
use vstd::string::StringExecFns;
use crate::error::{SCError, SCResult};
use crate::xml::{attrs_view, feed, toks, Element, Tok, Token, Tree, TreeBuilder};

verus! {

broadcast use {vstd::seq::group_seq_axioms, vstd::std_specs::vec::group_vec_axioms};

/// The entity that stands for a character reserved in XML, or the character itself.
pub open spec fn escape_char(c: char) -> Seq<char> {
    if c == '<' {
        seq!['&', 'l', 't', ';']
    } else if c == '>' {
        seq!['&', 'g', 't', ';']
    } else if c == '\'' {
        seq!['&', 'a', 'p', 'o', 's', ';']
    } else if c == '&' {
        seq!['&', 'a', 'm', 'p', ';']
    } else if c == '"' {
        seq!['&', 'q', 'u', 'o', 't', ';']
    } else {
        seq![c]
    }
}

/// `s` with each reserved character replaced by its entity.
pub open spec fn escaped(s: Seq<char>) -> Seq<char>
    decreases s.len(),
{
    if s.len() == 0 {
        Seq::empty()
    } else {
        escaped(s.drop_last()) + escape_char(s.last())
    }
}

/// Relies on quick_xml::escape::escape: each of `<`, `>`, `'`, `&` and `"` is replaced by
/// its entity and every other character is kept.
#[verifier::external_body]
fn escape(s: &str) -> (r: String)
    ensures
        r@ == escaped(s@),
{
    String::from_utf8_lossy(&quick_xml::escape::escape(s.as_bytes())).into_owned()
}

/// The text of the first `n` attributes: each as ` key="value"`, the value escaped.
pub open spec fn attr_text(a: Seq<(Seq<char>, Seq<char>)>, n: nat) -> Seq<char>
    decreases n,
{
    if n == 0 || n > a.len() {
        Seq::empty()
    } else {
        attr_text(a, (n - 1) as nat) + seq![' '] + a[n - 1].0 + seq!['=', '"'] + escaped(
            a[n - 1].1,
        ) + seq!['"']
    }
}

/// The text of one token.
pub open spec fn tok_text(t: Tok) -> Seq<char> {
    match t {
        Tok::Open(n, a) => seq!['<'] + n + attr_text(a, a.len()) + seq!['>'],
        Tok::Empty(n, a) => seq!['<'] + n + attr_text(a, a.len()) + seq!['/', '>'],
        Tok::Close(n) => seq!['<', '/'] + n + seq!['>'],
        Tok::Text(s) => escaped(s),
        Tok::Eof => Seq::empty(),
    }
}

/// The text of a token sequence.
pub open spec fn text_of(ts: Seq<Tok>) -> Seq<char>
    decreases ts.len(),
{
    if ts.len() == 0 {
        Seq::empty()
    } else {
        text_of(ts.drop_last()) + tok_text(ts.last())
    }
}

fn write_attributes(a: &Vec<(String, String)>, out: &mut String)
    ensures
        final(out)@ == old(out)@ + attr_text(attrs_view(a@), a@.len()),
{
    let ghost v = attrs_view(a@);
    let ghost start = out@;
    let mut i: usize = 0;
    while i < a.len()
        invariant
            i <= a@.len(),
            v == attrs_view(a@),
            out@ == start + attr_text(v, i as nat),
        decreases a@.len() - i,
    {
        proof {
            reveal_strlit(" ");
            reveal_strlit("=\"");
            reveal_strlit("\"");
        }
        let ghost before = out@;
        assert(v[i as int] == (a@[i as int].0@, a@[i as int].1@));
        out.append(" ");
        out.append(a[i].0.as_str());
        out.append("=\"");
        let e = escape(a[i].1.as_str());
        out.append(e.as_str());
        out.append("\"");
        assert(out@ =~= before + seq![' '] + v[i as int].0 + seq!['=', '"'] + escaped(v[i as int].1)
            + seq!['"']);
        i = i + 1;
        assert(out@ =~= start + attr_text(v, i as nat));
    }
}

/// Appends the XML text of one token to `out`.
pub fn write_token(t: &Token, out: &mut String)
    ensures
        final(out)@ == old(out)@ + tok_text(t@),
{
    let ghost start = out@;
    proof {
        reveal_strlit("<");
        reveal_strlit(">");
        reveal_strlit("/>");
        reveal_strlit("</");
    }
    match t {
        Token::Open(n, a) => {
            out.append("<");
            out.append(n.as_str());
            write_attributes(a, out);
            out.append(">");
        },
        Token::Empty(n, a) => {
            out.append("<");
            out.append(n.as_str());
            write_attributes(a, out);
            out.append("/>");
        },
        Token::Close(n) => {
            out.append("</");
            out.append(n.as_str());
            out.append(">");
        },
        Token::Text(s) => {
            let e = escape(s.as_str());
            out.append(e.as_str());
        },
        Token::Eof => {},
    }
    assert(out@ =~= start + tok_text(t@));
}

/// The XML text of a token sequence.
pub fn render(tokens: &Vec<Token>) -> (r: String)
    ensures
        r@ == text_of(toks(tokens@)),
{
    let mut out = String::new();
    let mut i: usize = 0;
    while i < tokens.len()
        invariant
            i <= tokens@.len(),
            out@ == text_of(toks(tokens@.take(i as int))),
        decreases tokens@.len() - i,
    {
        write_token(&tokens[i], &mut out);
        i = i + 1;
        assert(toks(tokens@.take(i as int)).drop_last() =~= toks(tokens@.take(i - 1)));
    }
    assert(tokens@.take(tokens@.len() as int) =~= tokens@);
    out
}

#[verifier::external_type_specification]
#[verifier::external_body]
pub struct ExBytesStart<'a>(quick_xml::events::BytesStart<'a>);

/// The token that quick_xml reads from the text `s` at byte offset `pos`, and the number
/// of bytes it took; none where the text there is not well-formed.
pub uninterp spec fn xml_token_at(s: Seq<char>, pos: usize) -> Option<(Tok, usize)>;

#[verifier::external_type_specification]
#[verifier::external_body]
pub struct ExXmlError(quick_xml::Error);

/// Relies on the `Display` impl of quick_xml::Error: its message, as an `Xml` error.
#[verifier::external_body]
fn xml_fault(x: quick_xml::Error) -> (r: SCError)
    ensures
        r is Xml,
{
    SCError::Xml(x.to_string())
}

/// Relies on quick_xml::events::BytesStart: the tag name, and the attributes in order with
/// their values unescaped.
#[verifier::external_body]
fn start_token(e: &quick_xml::events::BytesStart, empty: bool) -> (r: SCResult<Token>) {
    let attrs = e.attributes().map(|a| {
        let a = a.map_err(xml_fault)?;
        let v = a.unescaped_value().map_err(xml_fault)?;
        Ok((String::from_utf8_lossy(a.key).into_owned(), String::from_utf8_lossy(&v).into_owned()))
    }).collect::<SCResult<Vec<(String, String)>>>()?;
    let name = String::from_utf8_lossy(e.name()).into_owned();
    Ok(if empty { Token::Empty(name, attrs) } else { Token::Open(name, attrs) })
}

/// Relies on quick_xml::Reader::read_event, on a reader over the text from byte `pos` on
/// that trims leading whitespace from text and leaves closing tag names unchecked: the
/// event read, as a token, and quick_xml::Reader::buffer_position, the bytes it took. Text is unescaped; CDATA
/// sections, declarations, comments and instructions give empty text.
#[verifier::external_body]
fn token_at(s: &str, pos: usize) -> (r: SCResult<(Token, usize)>)
    ensures
        match xml_token_at(s@, pos) {
            Some(p) => r is Ok && r->Ok_0.0@ == p.0 && r->Ok_0.1 == p.1,
            None => r is Err,
        },
{
    let mut reader = quick_xml::Reader::from_str(s.get(pos..).unwrap_or(""));
    reader.trim_text(true).check_end_names(false);
    let mut buf = Vec::new();
    let token = match reader.read_event(&mut buf).map_err(xml_fault)? {
        Event::Start(e) => start_token(&e, false)?,
        Event::Empty(e) => start_token(&e, true)?,
        Event::End(e) => Token::Close(String::from_utf8_lossy(e.name()).into_owned()),
        Event::Text(t) => Token::Text(String::from_utf8_lossy(&t.unescaped().map_err(xml_fault)?).into_owned()),
        Event::Eof => Token::Eof,
        _ => Token::Text(String::new()),
    };
    Ok((token, reader.buffer_position()))
}

/// The document read from the text `s` of `len` bytes, from byte `pos` on, with `stack`
/// open and at most `fuel` more tokens after the next one.
pub open spec fn read_text(s: Seq<char>, len: nat, pos: nat, stack: Seq<Tree>, fuel: nat) -> Option<
    Tree,
>
    decreases fuel,
{
    if pos > len {
        None
    } else {
        match xml_token_at(s, pos as usize) {
            None => None,
            Some(p) => if p.0 is Eof || p.1 > len - pos {
                None
            } else {
                let (s2, d) = feed(stack, p.0);
                if d is Some {
                    d
                } else if fuel == 0 {
                    None
                } else {
                    read_text(s, len, (pos + p.1) as nat, s2, (fuel - 1) as nat)
                }
            },
        }
    }
}

/// The document of an XML text `s` of `len` bytes.
pub open spec fn parse_text(s: Seq<char>, len: nat) -> Option<Tree> {
    read_text(s, len, 0, Seq::empty(), len)
}

/// Reading the same text twice gives the same tree.
pub proof fn lemma_parse_deterministic(s1: Seq<char>, s2: Seq<char>, len: nat)
    requires
        s1 == s2,
    ensures
        parse_text(s1, len) == parse_text(s2, len),
{
}

impl Element {
    /// Reads one node tree from XML text: empty tags count as an opening and a closing
    /// tag, and whitespace before text is dropped.
    pub fn from_str(s: &str) -> (r: SCResult<Element>)
        ensures
            match parse_text(s@, s.len() as nat) {
                Some(t) => r is Ok && r->Ok_0@ == t,
                None => r is Err,
            },
    {
        let len = s.len();
        let mut pos: usize = 0;
        let mut builder = TreeBuilder::new();
        let mut left: usize = len;
        loop
            invariant
                len == s.len(),
                pos <= len,
                parse_text(s@, len as nat) == read_text(
                    s@,
                    len as nat,
                    pos as nat,
                    builder.frames(),
                    left as nat,
                ),
            decreases left,
        {
            let (t, used) = token_at(s, pos)?;
            if let Token::Eof = t {
                return Err(SCError::Eof);
            }
            if used > len - pos {
                return Err(SCError::Eof);
            }
            let done = builder.feed(t);
            if let Some(e) = done {
                return Ok(e);
            }
            if left == 0 {
                return Err(SCError::Eof);
            }
            left = left - 1;
            pos = pos + used;
        }
    }

    /// The node as XML text.
    pub fn to_string(&self) -> (r: String)
        ensures
            r@ == text_of(crate::xml::tokens_of(self@)),
    {
        let mut tokens: Vec<Token> = Vec::new();
        self.write_to(&mut tokens);
        assert(toks(tokens@) =~= crate::xml::tokens_of(self@));
        render(&tokens)
    }
}

} // verus!
