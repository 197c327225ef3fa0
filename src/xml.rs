use vstd::prelude::*;
use vstd::string::StringExecFns;
use crate::error::{SCError, SCResult};

verus! {

broadcast use {vstd::seq::group_seq_axioms, vstd::std_specs::vec::group_vec_axioms};

/// The mathematical picture of a document node.
pub struct Tree {
    pub name: Seq<char>,
    pub content: Seq<char>,
    pub attributes: Seq<(Seq<char>, Seq<char>)>,
    pub childs: Seq<Tree>,
}

/// The view of a list of attribute pairs.
pub open spec fn attrs_view(a: Seq<(String, String)>) -> Seq<(Seq<char>, Seq<char>)> {
    a.map_values(|p: (String, String)| (p.0@, p.1@))
}

/// The value of the first attribute with the given key, at or after index `i`.
pub open spec fn attr_lookup_from(a: Seq<(Seq<char>, Seq<char>)>, key: Seq<char>, i: int) -> Option<
    Seq<char>,
>
    decreases a.len() - i,
{
    if i < 0 || i >= a.len() {
        None
    } else if a[i].0 == key {
        Some(a[i].1)
    } else {
        attr_lookup_from(a, key, i + 1)
    }
}

/// The value of the first attribute with the given key.
pub open spec fn attr_lookup(a: Seq<(Seq<char>, Seq<char>)>, key: Seq<char>) -> Option<Seq<char>> {
    attr_lookup_from(a, key, 0)
}

/// The first child with the given tag name, at or after index `i`.
pub open spec fn child_lookup_from(cs: Seq<Tree>, name: Seq<char>, i: int) -> Option<Tree>
    decreases cs.len() - i,
{
    if i < 0 || i >= cs.len() {
        None
    } else if cs[i].name == name {
        Some(cs[i])
    } else {
        child_lookup_from(cs, name, i + 1)
    }
}

/// The first child with the given tag name.
pub open spec fn child_lookup(cs: Seq<Tree>, name: Seq<char>) -> Option<Tree> {
    child_lookup_from(cs, name, 0)
}

/// The children among the first `n` whose tag name is `name`, in order.
pub open spec fn named_children(cs: Seq<Tree>, name: Seq<char>, n: int) -> Seq<Tree>
    decreases n,
{
    if n <= 0 || n > cs.len() {
        Seq::empty()
    } else if cs[n - 1].name == name {
        named_children(cs, name, n - 1).push(cs[n - 1])
    } else {
        named_children(cs, name, n - 1)
    }
}

/// A deserialized, in-memory tree-representation of an XML node.
#[derive(Debug, Default)]
pub struct Element {
    name: String,
    content: String,
    attributes: Vec<(String, String)>,
    childs: Vec<Element>,
}

impl Element {
    /// The tree that the node stands for.
    pub closed spec fn tree(self) -> Tree
        decreases self,
    {
        Tree {
            name: self.name@,
            content: self.content@,
            attributes: attrs_view(self.attributes@),
            childs: Seq::new(
                self.childs@.len(),
                |i: int|
                    if 0 <= i < self.childs@.len() {
                        self.childs@[i].tree()
                    } else {
                        arbitrary()
                    },
            ),
        }
    }
}

impl View for Element {
    type V = Tree;

    open spec fn view(&self) -> Tree {
        self.tree()
    }
}

/// The views of a sequence of elements.
pub open spec fn trees(s: Seq<Element>) -> Seq<Tree> {
    s.map_values(|e: Element| e@)
}

/// A low-level XML token, as a token source produces it and a sink consumes it.
#[derive(Debug, Clone)]
pub enum Token {
    /// An opening tag with its attributes.
    Open(String, Vec<(String, String)>),
    /// A self-closing tag with its attributes.
    Empty(String, Vec<(String, String)>),
    /// A closing tag.
    Close(String),
    /// A piece of character data, unescaped.
    Text(String),
    /// The end of the stream.
    Eof,
}

impl Token {
    /// A copy of the token.
    pub fn duplicate(&self) -> (r: Token)
        ensures
            r@ == self@,
    {
        match self {
            Token::Open(n, a) => Token::Open(n.clone(), copy_attributes(a)),
            Token::Empty(n, a) => Token::Empty(n.clone(), copy_attributes(a)),
            Token::Close(n) => Token::Close(n.clone()),
            Token::Text(t) => Token::Text(t.clone()),
            Token::Eof => Token::Eof,
        }
    }
}

/// The mathematical picture of a token.
pub enum Tok {
    Open(Seq<char>, Seq<(Seq<char>, Seq<char>)>),
    Empty(Seq<char>, Seq<(Seq<char>, Seq<char>)>),
    Close(Seq<char>),
    Text(Seq<char>),
    Eof,
}

impl View for Token {
    type V = Tok;

    open spec fn view(&self) -> Tok {
        match self {
            Token::Open(n, a) => Tok::Open(n@, attrs_view(a@)),
            Token::Empty(n, a) => Tok::Empty(n@, attrs_view(a@)),
            Token::Close(n) => Tok::Close(n@),
            Token::Text(s) => Tok::Text(s@),
            Token::Eof => Tok::Eof,
        }
    }
}

/// The views of a sequence of tokens.
pub open spec fn toks(s: Seq<Token>) -> Seq<Tok> {
    s.map_values(|t: Token| t@)
}

/// A node with the given name and attributes, and nothing else.
pub open spec fn leaf(name: Seq<char>, attributes: Seq<(Seq<char>, Seq<char>)>) -> Tree {
    Tree { name, content: Seq::empty(), attributes, childs: Seq::empty() }
}

/// `t` with `c` appended as its last child.
pub open spec fn with_child(t: Tree, c: Tree) -> Tree {
    Tree { childs: t.childs.push(c), ..t }
}

/// `t` with `s` appended to its text.
pub open spec fn with_text(t: Tree, s: Seq<char>) -> Tree {
    Tree { content: t.content + s, ..t }
}

/// Pops the top frame: it becomes the last child of the frame below, or, where there is
/// none, the finished document.
pub open spec fn close_top(stack: Seq<Tree>) -> (Seq<Tree>, Option<Tree>) {
    if stack.len() == 0 {
        (stack, None)
    } else if stack.len() == 1 {
        (Seq::empty(), Some(stack[0]))
    } else {
        (
            stack.drop_last().update(
                stack.len() - 2,
                with_child(stack[stack.len() - 2], stack.last()),
            ),
            None,
        )
    }
}

/// One step of the tree builder: the new stack of open frames, and the finished document
/// if this token completed one.
pub open spec fn feed(stack: Seq<Tree>, t: Tok) -> (Seq<Tree>, Option<Tree>) {
    match t {
        Tok::Open(n, a) => (stack.push(leaf(n, a)), None),
        Tok::Empty(n, a) => close_top(stack.push(leaf(n, a))),
        Tok::Close(_) => close_top(stack),
        Tok::Text(s) => if stack.len() > 0 {
            (stack.update(stack.len() - 1, with_text(stack.last(), s)), None)
        } else {
            (stack, None)
        },
        Tok::Eof => (stack, None),
    }
}

/// Runs the builder over `ts` until a document is complete or the tokens or the stream
/// end: the stack, the document if one was completed, and the number of tokens consumed.
pub open spec fn build(stack: Seq<Tree>, ts: Seq<Tok>) -> (Seq<Tree>, Option<Tree>, nat)
    decreases ts.len(),
{
    if ts.len() == 0 || ts[0] is Eof {
        (stack, None, 0)
    } else {
        let (s2, done) = feed(stack, ts[0]);
        if done is Some {
            (s2, done, 1)
        } else {
            let r = build(s2, ts.drop_first());
            (r.0, r.1, r.2 + 1)
        }
    }
}

/// The document that the tokens `ts` describe, read from an empty stack.
pub open spec fn document(ts: Seq<Tok>) -> Option<Tree> {
    build(Seq::empty(), ts).1
}

/// The text token of a node, if its text is not empty.
pub open spec fn text_tokens(c: Seq<char>) -> Seq<Tok> {
    if c.len() == 0 {
        Seq::empty()
    } else {
        seq![Tok::Text(c)]
    }
}

/// The tokens that the serializer emits for a node.
pub open spec fn tokens_of(t: Tree) -> Seq<Tok>
    decreases t, 0nat,
{
    if t.childs.len() == 0 && t.content.len() == 0 {
        seq![Tok::Empty(t.name, t.attributes)]
    } else {
        seq![Tok::Open(t.name, t.attributes)] + text_tokens(t.content) + child_tokens(
            t.childs,
            t.childs.len(),
        ) + seq![Tok::Close(t.name)]
    }
}

/// The tokens of the first `n` children, in order.
pub open spec fn child_tokens(cs: Seq<Tree>, n: nat) -> Seq<Tok>
    decreases cs, n,
{
    if n == 0 || n > cs.len() {
        Seq::empty()
    } else {
        child_tokens(cs, (n - 1) as nat) + tokens_of(cs[n - 1])
    }
}

/// Copies a list of attribute pairs.
fn copy_attributes(a: &Vec<(String, String)>) -> (r: Vec<(String, String)>)
    ensures
        attrs_view(r@) == attrs_view(a@),
{
    let mut r: Vec<(String, String)> = Vec::new();
    let mut i: usize = 0;
    while i < a.len()
        invariant
            i <= a@.len(),
            r@ == a@.take(i as int),
        decreases a@.len() - i,
    {
        let k = a[i].0.clone();
        let v = a[i].1.clone();
        r.push((k, v));
        i = i + 1;
        assert(r@ =~= a@.take(i as int));
    }
    assert(a@.take(a@.len() as int) =~= a@);
    r
}

impl Element {
    proof fn lemma_view(&self)
        ensures
            self@.name == self.name@,
            self@.content == self.content@,
            self@.attributes == attrs_view(self.attributes@),
            self@.childs == trees(self.childs@),
    {
        let n = self.childs@.len();
        assert(self@.childs.len() == n);
        assert forall|i: int| 0 <= i < n implies self@.childs[i] == trees(self.childs@)[i] by {}
        assert(self@.childs =~= trees(self.childs@));
    }

    /// Creates a new XML element builder.
    pub fn new(name: &str) -> (r: ElementBuilder)
        ensures
            r@ == leaf(name@, Seq::empty()),
    {
        ElementBuilder::new(name)
    }

    /// A node with the given name and attributes and nothing else.
    fn from_parts(name: String, attributes: Vec<(String, String)>) -> (r: Element)
        ensures
            r@ == leaf(name@, attrs_view(attributes@)),
    {
        let r = Element { name, content: String::new(), attributes, childs: Vec::new() };
        proof {
            r.lemma_view();
            assert(r@.childs =~= Seq::<Tree>::empty());
        }
        r
    }

    /// A deep copy of the node.
    pub fn duplicate(&self) -> (r: Element)
        ensures
            r@ == self@,
        decreases self,
    {
        let mut childs: Vec<Element> = Vec::new();
        let mut i: usize = 0;
        proof {
            self.lemma_view();
        }
        while i < self.childs.len()
            invariant
                i <= self.childs@.len(),
                trees(childs@) == trees(self.childs@).take(i as int),
            decreases self.childs@.len() - i,
        {
            proof {
                assert(decreases_to!(self => self.childs));
                vstd::std_specs::vec::axiom_vec_index_decreases(self.childs, i as int);
            }
            let c = self.childs[i].duplicate();
            let ghost before = childs@;
            childs.push(c);
            assert(childs@ == before.push(c));
            assert(trees(childs@) =~= trees(before).push(c@));
            assert(trees(self.childs@)[i as int] == c@);
            i = i + 1;
            assert(trees(childs@) =~= trees(self.childs@).take(i as int));
        }
        let r = Element {
            name: self.name.clone(),
            content: self.content.clone(),
            attributes: copy_attributes(&self.attributes),
            childs,
        };
        proof {
            r.lemma_view();
            assert(trees(self.childs@).take(self.childs@.len() as int) =~= trees(self.childs@));
            assert(r@.childs =~= self@.childs);
        }
        r
    }

    /// Fetches the node's tag name.
    pub fn name(&self) -> (r: &str)
        ensures
            r@ == self@.name,
    {
        proof {
            self.lemma_view();
        }
        self.name.as_str()
    }

    /// Fetches the node's textual contents.
    pub fn content(&self) -> (r: &str)
        ensures
            r@ == self@.content,
    {
        proof {
            self.lemma_view();
        }
        self.content.as_str()
    }

    /// Fetches an attribute's value by key.
    pub fn attribute(&self, key: &str) -> (r: SCResult<&str>)
        ensures
            match attr_lookup(self@.attributes, key@) {
                Some(v) => r is Ok && r->Ok_0@ == v,
                None => r is Err && r->Err_0 is MissingAttribute && r->Err_0->MissingAttribute_0@
                    == key@,
            },
    {
        proof {
            self.lemma_view();
        }
        let k = key.to_owned();
        let mut i: usize = 0;
        while i < self.attributes.len()
            invariant
                i <= self.attributes@.len(),
                k@ == key@,
                attr_lookup(self@.attributes, key@) == attr_lookup_from(
                    self@.attributes,
                    key@,
                    i as int,
                ),
                self@.attributes == attrs_view(self.attributes@),
            decreases self.attributes@.len() - i,
        {
            if self.attributes[i].0 == k {
                return Ok(self.attributes[i].1.as_str());
            }
            i = i + 1;
        }
        Err(SCError::MissingAttribute(k))
    }

    /// Finds the first child element with the provided tag name.
    pub fn child_by_name(&self, name: &str) -> (r: SCResult<&Element>)
        ensures
            match child_lookup(self@.childs, name@) {
                Some(c) => r is Ok && r->Ok_0@ == c,
                None => r is Err && r->Err_0 is MissingChild && r->Err_0->MissingChild_0@
                    == name@,
            },
    {
        proof {
            self.lemma_view();
        }
        let k = name.to_owned();
        let mut i: usize = 0;
        while i < self.childs.len()
            invariant
                i <= self.childs@.len(),
                k@ == name@,
                child_lookup(self@.childs, name@) == child_lookup_from(
                    self@.childs,
                    name@,
                    i as int,
                ),
                self@.childs == trees(self.childs@),
            decreases self.childs@.len() - i,
        {
            proof {
                self.childs[i as int].lemma_view();
            }
            if self.childs[i].name == k {
                return Ok(&self.childs[i]);
            }
            i = i + 1;
        }
        Err(SCError::MissingChild(k))
    }

    /// Fetches a list of all child elements matching the provided tag name.
    pub fn childs_by_name(&self, name: &str) -> (r: Vec<&Element>)
        ensures
            r@.map_values(|e: &Element| e@) == named_children(
                self@.childs,
                name@,
                self@.childs.len() as int,
            ),
    {
        proof {
            self.lemma_view();
        }
        let k = name.to_owned();
        let mut r: Vec<&Element> = Vec::new();
        let mut i: usize = 0;
        while i < self.childs.len()
            invariant
                i <= self.childs@.len(),
                k@ == name@,
                self@.childs == trees(self.childs@),
                r@.map_values(|e: &Element| e@) == named_children(self@.childs, name@, i as int),
            decreases self.childs@.len() - i,
        {
            proof {
                self.childs[i as int].lemma_view();
            }
            if self.childs[i].name == k {
                r.push(&self.childs[i]);
            }
            i = i + 1;
            assert(r@.map_values(|e: &Element| e@) =~= named_children(
                self@.childs,
                name@,
                i as int,
            ));
        }
        r
    }

    /// Serializes the node as a token sequence appended to `out`: a self-closing tag where
    /// it has neither children nor text, else an opening tag, the text if any, the
    /// children in order and a closing tag.
    pub fn write_to(&self, out: &mut Vec<Token>)
        ensures
            toks(final(out)@) == toks(old(out)@) + tokens_of(self@),
        decreases self,
    {
        proof {
            self.lemma_view();
        }
        let ghost start = toks(out@);
        if self.childs.len() == 0 && self.content.as_str().is_empty() {
            let tok = Token::Empty(self.name.clone(), copy_attributes(&self.attributes));
            let ghost before = out@;
            out.push(tok);
            assert(toks(out@) =~= toks(before).push(tok@));
            assert(self@.childs.len() == 0);
            assert(self@.content.len() == 0);
            assert(tokens_of(self@) == seq![Tok::Empty(self@.name, self@.attributes)]);
            assert(toks(out@) =~= start + tokens_of(self@));
        } else {
            out.push(Token::Open(self.name.clone(), copy_attributes(&self.attributes)));
            if !self.content.as_str().is_empty() {
                out.push(Token::Text(self.content.clone()));
            }
            assert(toks(out@) =~= start + seq![Tok::Open(self@.name, self@.attributes)]
                + text_tokens(self@.content));
            let mut i: usize = 0;
            while i < self.childs.len()
                invariant
                    i <= self.childs@.len(),
                    self@.childs == trees(self.childs@),
                    toks(out@) == start + seq![Tok::Open(self@.name, self@.attributes)]
                        + text_tokens(self@.content) + child_tokens(self@.childs, i as nat),
                decreases self.childs@.len() - i,
            {
                proof {
                    assert(decreases_to!(self => self.childs));
                    vstd::std_specs::vec::axiom_vec_index_decreases(self.childs, i as int);
                }
                self.childs[i].write_to(out);
                i = i + 1;
                assert(toks(out@) =~= start + seq![Tok::Open(self@.name, self@.attributes)]
                    + text_tokens(self@.content) + child_tokens(self@.childs, i as nat));
            }
            let tok = Token::Close(self.name.clone());
            let ghost before = out@;
            out.push(tok);
            assert(toks(out@) =~= toks(before).push(tok@));
            assert(tokens_of(self@) == seq![Tok::Open(self@.name, self@.attributes)] + text_tokens(
                self@.content,
            ) + child_tokens(self@.childs, self@.childs.len()) + seq![Tok::Close(self@.name)]);
            assert(toks(out@) =~= start + tokens_of(self@));
        }
    }

    /// Deserializes one node tree from the tokens at `*pos`, reading until exactly one
    /// top-level node is closed and leaving `*pos` at the token after it. A closing tag
    /// with nothing open and text outside any node are skipped. Where the tokens or the
    /// stream end first, the error is `Eof`.
    pub fn read_from(tokens: &Vec<Token>, pos: &mut usize) -> (r: SCResult<Element>)
        requires
            *old(pos) <= tokens@.len(),
        ensures
            ({
                let b = build(Seq::empty(), toks(tokens@).skip(*old(pos) as int));
                match b.1 {
                    Some(t) => r is Ok && r->Ok_0@ == t && *final(pos) == *old(pos) + b.2,
                    None => r is Err && r->Err_0 is Eof,
                }
            }),
    {
        let mut builder = TreeBuilder::new();
        let ghost start = *pos;
        let ghost all = toks(tokens@).skip(start as int);
        while *pos < tokens.len()
            invariant
                start <= *pos <= tokens@.len(),
                start == *old(pos),
                all == toks(tokens@).skip(start as int),
                build(Seq::empty(), all) == ({
                    let b = build(builder.frames(), toks(tokens@).skip(*pos as int));
                    (b.0, b.1, (b.2 + (*pos - start)) as nat)
                }),
            decreases tokens@.len() - *pos,
        {
            let ghost rest = toks(tokens@).skip(*pos as int);
            assert(rest.drop_first() =~= toks(tokens@).skip(*pos + 1));
            assert(rest[0] == tokens@[*pos as int]@);
            let ghost frames = builder.frames();
            if let Token::Eof = tokens[*pos] {
                assert(build(frames, rest) == (frames, Option::<Tree>::None, 0nat));
                return Err(SCError::Eof);
            }
            let t = tokens[*pos].duplicate();
            let ghost fed = feed(frames, t@);
            let done = builder.feed(t);
            *pos = *pos + 1;
            if let Some(e) = done {
                assert(build(frames, rest) == (fed.0, fed.1, 1nat));
                return Ok(e);
            }
            assert(build(frames, rest).1 == build(fed.0, rest.drop_first()).1);
            assert(build(frames, rest).2 == build(fed.0, rest.drop_first()).2 + 1);
        }
        assert(toks(tokens@).skip(*pos as int) =~= Seq::<Tok>::empty());
        Err(SCError::Eof)
    }
}

/// The tree builder: an explicit stack of the nodes that are open.
pub struct TreeBuilder {
    stack: Vec<Element>,
}

impl TreeBuilder {
    /// The open nodes, outermost first.
    pub closed spec fn frames(&self) -> Seq<Tree> {
        trees(self.stack@)
    }

    /// A builder with nothing open.
    pub fn new() -> (r: TreeBuilder)
        ensures
            r.frames() == Seq::<Tree>::empty(),
    {
        let r = TreeBuilder { stack: Vec::new() };
        assert(r.frames() =~= Seq::<Tree>::empty());
        r
    }

    /// Takes one token: an opening tag pushes a frame, text is appended to the top frame,
    /// a closing tag pops the top frame into its parent, or returns it where it was the
    /// outermost one.
    pub fn feed(&mut self, token: Token) -> (r: Option<Element>)
        ensures
            ({
                let (s, done) = feed(old(self).frames(), token@);
                final(self).frames() == s && match done {
                    Some(t) => r is Some && r->Some_0@ == t,
                    None => r is None,
                }
            }),
    {
        let ghost s0 = self.frames();
        match token {
            Token::Open(n, a) => {
                let e = Element::from_parts(n, a);
                self.stack.push(e);
                assert(self.frames() =~= s0.push(e@));
                None
            },
            Token::Empty(n, a) => {
                let e = Element::from_parts(n, a);
                self.stack.push(e);
                assert(self.frames() =~= s0.push(e@));
                self.close_top()
            },
            Token::Close(_) => self.close_top(),
            Token::Text(s) => {
                if self.stack.len() > 0 {
                    let mut top = self.stack.pop().unwrap();
                    proof {
                        top.lemma_view();
                    }
                    top.content.append(s.as_str());
                    proof {
                        top.lemma_view();
                    }
                    self.stack.push(top);
                    assert(self.frames() =~= s0.update(s0.len() - 1, with_text(s0.last(), s@)));
                }
                None
            },
            Token::Eof => None,
        }
    }

    fn close_top(&mut self) -> (r: Option<Element>)
        ensures
            ({
                let (s, done) = close_top(old(self).frames());
                final(self).frames() == s && match done {
                    Some(t) => r is Some && r->Some_0@ == t,
                    None => r is None,
                }
            }),
    {
        let ghost s0 = self.frames();
        match self.stack.pop() {
            None => None,
            Some(node) => {
                match self.stack.pop() {
                    None => {
                        assert(self.frames() =~= Seq::<Tree>::empty());
                        Some(node)
                    },
                    Some(mut parent) => {
                        proof {
                            parent.lemma_view();
                        }
                        let ghost pv = parent@;
                        parent.childs.push(node);
                        proof {
                            parent.lemma_view();
                            assert(parent@.childs =~= pv.childs.push(node@));
                        }
                        self.stack.push(parent);
                        assert(self.frames() =~= s0.drop_last().update(
                            s0.len() - 2,
                            with_child(s0[s0.len() - 2], s0.last()),
                        ));
                        None
                    },
                }
            },
        }
    }
}

/// A builder that makes the construction of new XML nodes more convenient.
pub struct ElementBuilder {
    name: String,
    content: String,
    attributes: Vec<(String, String)>,
    childs: Vec<Element>,
}

impl View for ElementBuilder {
    type V = Tree;

    closed spec fn view(&self) -> Tree {
        Tree {
            name: self.name@,
            content: self.content@,
            attributes: attrs_view(self.attributes@),
            childs: trees(self.childs@),
        }
    }
}

/// `a` with the pair `(k, v)`: the value of an attribute with key `k` is replaced, or the
/// pair is appended where there is none.
pub open spec fn attrs_insert(a: Seq<(Seq<char>, Seq<char>)>, k: Seq<char>, v: Seq<char>) -> Seq<
    (Seq<char>, Seq<char>),
> {
    let i = attr_index_from(a, k, 0);
    if 0 <= i < a.len() {
        a.update(i, (k, v))
    } else {
        a.push((k, v))
    }
}

/// `a` with each pair of `kvs` inserted in turn.
pub open spec fn attrs_insert_all(
    a: Seq<(Seq<char>, Seq<char>)>,
    kvs: Seq<(Seq<char>, Seq<char>)>,
) -> Seq<(Seq<char>, Seq<char>)>
    decreases kvs.len(),
{
    if kvs.len() == 0 {
        a
    } else {
        attrs_insert(attrs_insert_all(a, kvs.drop_last()), kvs.last().0, kvs.last().1)
    }
}

/// The index of the first attribute with key `k` at or after `i`, or the length where
/// there is none.
pub open spec fn attr_index_from(a: Seq<(Seq<char>, Seq<char>)>, k: Seq<char>, i: int) -> int
    decreases a.len() - i,
{
    if i < 0 || i >= a.len() {
        a.len() as int
    } else if a[i].0 == k {
        i
    } else {
        attr_index_from(a, k, i + 1)
    }
}

impl Default for ElementBuilder {
    /// A builder with an empty tag name.
    fn default() -> (r: Self)
        ensures
            r@ == leaf(Seq::empty(), Seq::empty()),
    {
        proof {
            reveal_strlit("");
            assert(""@ =~= Seq::<char>::empty());
        }
        ElementBuilder::new("")
    }
}

impl ElementBuilder {
    /// Creates a new XML node builder with the specified tag name.
    pub fn new(name: &str) -> (r: Self)
        ensures
            r@ == leaf(name@, Seq::empty()),
    {
        let r = ElementBuilder {
            name: name.to_owned(),
            content: String::new(),
            attributes: Vec::new(),
            childs: Vec::new(),
        };
        assert(r@.attributes =~= Seq::<(Seq<char>, Seq<char>)>::empty());
        assert(r@.childs =~= Seq::<Tree>::empty());
        r
    }

    /// Sets the tag name of the XML node.
    pub fn name(self, name: &str) -> (r: Self)
        ensures
            r@ == (Tree { name: name@, ..self@ }),
    {
        let mut b = self;
        b.name = name.to_owned();
        b
    }

    /// Sets the contents of the XML node.
    pub fn content(self, data: &str) -> (r: Self)
        ensures
            r@ == (Tree { content: data@, ..self@ }),
    {
        let mut b = self;
        b.content = data.to_owned();
        b
    }

    /// Adds the specified attribute, replacing the value of one with the same key.
    pub fn attribute(self, key: &str, value: &str) -> (r: Self)
        ensures
            r@ == (Tree { attributes: attrs_insert(self@.attributes, key@, value@), ..self@ }),
    {
        let mut b = self;
        let k = key.to_owned();
        let ghost a = b@.attributes;
        let mut i: usize = 0;
        while i < b.attributes.len()
            invariant
                i <= b.attributes@.len(),
                k@ == key@,
                a == attrs_view(b.attributes@),
                a == self@.attributes,
                b@.name == self@.name,
                b@.content == self@.content,
                b@.childs == self@.childs,
                attr_index_from(a, key@, 0) == attr_index_from(a, key@, i as int),
            decreases b.attributes@.len() - i,
        {
            if b.attributes[i].0 == k {
                let ghost iw = i as int;
                b.attributes.set(i, (k, value.to_owned()));
                assert(attrs_view(b.attributes@) =~= a.update(iw, (key@, value@)));
                return b;
            }
            i = i + 1;
        }
        b.attributes.push((k, value.to_owned()));
        assert(attrs_view(b.attributes@) =~= a.push((key@, value@)));
        b
    }

    /// Adds the specified attributes, one after the other.
    pub fn attributes(self, attributes: Vec<(String, String)>) -> (r: Self)
        ensures
            r@ == (Tree {
                attributes: attrs_insert_all(self@.attributes, attrs_view(attributes@)),
                ..self@
            }),
    {
        let mut b = self;
        let mut i: usize = 0;
        let ghost kvs = attrs_view(attributes@);
        while i < attributes.len()
            invariant
                i <= attributes@.len(),
                kvs == attrs_view(attributes@),
                b@ == (Tree {
                    attributes: attrs_insert_all(self@.attributes, kvs.take(i as int)),
                    ..self@
                }),
            decreases attributes@.len() - i,
        {
            assert(kvs.take(i + 1).drop_last() =~= kvs.take(i as int));
            b = b.attribute(attributes[i].0.as_str(), attributes[i].1.as_str());
            i = i + 1;
        }
        assert(kvs.take(attributes@.len() as int) =~= kvs);
        b
    }

    /// Adds the specified child.
    pub fn child(self, child: Element) -> (r: Self)
        ensures
            r@ == with_child(self@, child@),
    {
        let mut b = self;
        b.childs.push(child);
        assert(b@.childs =~= self@.childs.push(child@));
        b
    }

    /// Adds the specified children, in order.
    pub fn childs(self, childs: Vec<Element>) -> (r: Self)
        ensures
            r@ == (Tree { childs: self@.childs + trees(childs@), ..self@ }),
    {
        let mut b = self;
        let mut cs = childs;
        let ghost old_cs = trees(cs@);
        b.childs.append(&mut cs);
        assert(b@.childs =~= self@.childs + old_cs);
        b
    }

    /// Tries adding the specified child.
    pub fn try_child(self, child: SCResult<Element>) -> (r: SCResult<Self>)
        ensures
            match child {
                Ok(c) => r is Ok && r->Ok_0@ == with_child(self@, c@),
                Err(_) => r is Err,
            },
    {
        match child {
            Ok(c) => Ok(self.child(c)),
            Err(e) => Err(e),
        }
    }

    /// Builds the XML node.
    pub fn build(self) -> (r: Element)
        ensures
            r@ == self@,
    {
        let r = Element {
            name: self.name,
            content: self.content,
            attributes: self.attributes,
            childs: self.childs,
        };
        proof {
            r.lemma_view();
        }
        r
    }
}

/// The values that `f` reads from each of the nodes, in order; none where it reads none
/// from one of them.
pub open spec fn decode_all<T>(es: Seq<Tree>, f: spec_fn(Tree) -> Option<T>) -> Option<Seq<T>>
    decreases es.len(),
{
    if es.len() == 0 {
        Some(Seq::empty())
    } else {
        match (decode_all(es.drop_last(), f), f(es.last())) {
            (Some(a), Some(e)) => Some(a.push(e)),
            _ => None,
        }
    }
}

/// Reading one node more: the prefix of length `k + 1` is read as the prefix of length
/// `k` and the node at `k`.
pub proof fn lemma_decode_all_step<T>(es: Seq<Tree>, f: spec_fn(Tree) -> Option<T>, k: int)
    requires
        0 <= k < es.len(),
    ensures
        decode_all(es.take(k + 1), f) == match (decode_all(es.take(k), f), f(es[k])) {
            (Some(a), Some(e)) => Some(a.push(e)),
            _ => None,
        },
{
    assert(es.take(k + 1).drop_last() =~= es.take(k));
}

/// Where a prefix cannot be read, the whole cannot either.
pub proof fn lemma_decode_all_none<T>(es: Seq<Tree>, f: spec_fn(Tree) -> Option<T>, k: int)
    requires
        0 <= k <= es.len(),
        decode_all(es.take(k), f) is None,
    ensures
        decode_all(es, f) is None,
    decreases es.len() - k,
{
    if k == es.len() {
        assert(es.take(k) =~= es);
    } else {
        lemma_decode_all_step(es, f, k);
        lemma_decode_all_none(es, f, k + 1);
    }
}

/// Where the node `t` goes once all its tokens have been read: it is appended to the top
/// frame, or, with nothing open, it is the finished document.
pub open spec fn attach(stack: Seq<Tree>, t: Tree) -> (Seq<Tree>, Option<Tree>) {
    if stack.len() == 0 {
        (stack, Some(t))
    } else {
        (stack.update(stack.len() - 1, with_child(stack.last(), t)), None)
    }
}

proof fn lemma_build_cons(stack: Seq<Tree>, x: Tok, rest: Seq<Tok>)
    requires
        !(x is Eof),
    ensures
        ({
            let (s2, done) = feed(stack, x);
            let r = build(stack, seq![x] + rest);
            if done is Some {
                r == (s2, done, 1nat)
            } else {
                r == (build(s2, rest).0, build(s2, rest).1, build(s2, rest).2 + 1)
            }
        }),
{
    let ts = seq![x] + rest;
    assert(ts[0] == x);
    assert(ts.drop_first() =~= rest);
}

proof fn lemma_build_tree(stack: Seq<Tree>, t: Tree, rest: Seq<Tok>)
    ensures
        ({
            let (s2, done) = attach(stack, t);
            let r = build(stack, tokens_of(t) + rest);
            if done is Some {
                r.0 == s2 && r.1 == done
            } else {
                r.0 == build(s2, rest).0 && r.1 == build(s2, rest).1
            }
        }),
    decreases t, 0nat,
{
    if t.childs.len() == 0 && t.content.len() == 0 {
        assert(t.content =~= Seq::<char>::empty());
        assert(t.childs =~= Seq::<Tree>::empty());
        assert(leaf(t.name, t.attributes) == t);
        lemma_build_cons(stack, Tok::Empty(t.name, t.attributes), rest);
        let s1 = stack.push(leaf(t.name, t.attributes));
        if stack.len() > 0 {
            assert(s1.drop_last() =~= stack);
        }
    } else {
        let open = Tok::Open(t.name, t.attributes);
        let close = Tok::Close(t.name);
        let kids = child_tokens(t.childs, t.childs.len());
        let tail = seq![close] + rest;
        assert(tokens_of(t) + rest =~= seq![open] + (text_tokens(t.content) + (kids + tail)));
        lemma_build_cons(stack, open, text_tokens(t.content) + (kids + tail));
        let s1 = stack.push(leaf(t.name, t.attributes));
        let top = Tree { content: t.content, ..leaf(t.name, t.attributes) };
        let s2 = stack.push(top);
        if t.content.len() > 0 {
            assert(text_tokens(t.content) + (kids + tail) =~= seq![Tok::Text(t.content)] + (kids
                + tail));
            lemma_build_cons(s1, Tok::Text(t.content), kids + tail);
            assert(leaf(t.name, t.attributes).content + t.content =~= t.content);
            assert(s1.update(s1.len() - 1, with_text(s1.last(), t.content)) =~= s2);
        } else {
            assert(text_tokens(t.content) + (kids + tail) =~= kids + tail);
            assert(t.content =~= Seq::<char>::empty());
            assert(s1 =~= s2);
        }
        lemma_build_children(s2, t.childs, t.childs.len(), tail);
        let top3 = Tree { childs: top.childs + t.childs.take(t.childs.len() as int), ..top };
        let s3 = s2.update(s2.len() - 1, top3);
        assert(top.childs + t.childs.take(t.childs.len() as int) =~= t.childs);
        assert(top3 == t);
        lemma_build_cons(s3, close, rest);
        if stack.len() > 0 {
            assert(s3.drop_last() =~= stack);
        }
    }
}

proof fn lemma_build_children(stack: Seq<Tree>, cs: Seq<Tree>, n: nat, rest: Seq<Tok>)
    requires
        stack.len() > 0,
        n <= cs.len(),
    ensures
        ({
            let top = stack.last();
            let s2 = stack.update(
                stack.len() - 1,
                Tree { childs: top.childs + cs.take(n as int), ..top },
            );
            let r = build(stack, child_tokens(cs, n) + rest);
            r.0 == build(s2, rest).0 && r.1 == build(s2, rest).1
        }),
    decreases cs, n,
{
    let top = stack.last();
    if n == 0 {
        assert(child_tokens(cs, n) + rest =~= rest);
        assert(top.childs + cs.take(0) =~= top.childs);
        assert(stack.update(stack.len() - 1, Tree { childs: top.childs + cs.take(0), ..top })
            =~= stack);
    } else {
        let m = (n - 1) as nat;
        assert(child_tokens(cs, n) + rest =~= child_tokens(cs, m) + (tokens_of(cs[m as int])
            + rest));
        lemma_build_children(stack, cs, m, tokens_of(cs[m as int]) + rest);
        let sm = stack.update(
            stack.len() - 1,
            Tree { childs: top.childs + cs.take(m as int), ..top },
        );
        lemma_build_tree(sm, cs[m as int], rest);
        let sn = stack.update(
            stack.len() - 1,
            Tree { childs: top.childs + cs.take(n as int), ..top },
        );
        assert((top.childs + cs.take(m as int)).push(cs[m as int]) =~= top.childs + cs.take(
            n as int,
        ));
        assert(sm.update(sm.len() - 1, with_child(sm.last(), cs[m as int])) =~= sn);
    }
}

/// Serializing a node and reading the tokens back gives the same node: the same name,
/// attributes, text and children, in order.
pub proof fn lemma_round_trip(t: Tree)
    ensures
        document(tokens_of(t)) == Some(t),
{
    lemma_build_tree(Seq::empty(), t, Seq::empty());
    assert(tokens_of(t) + Seq::empty() =~= tokens_of(t));
}

/// Reading the same tokens twice gives the same document.
pub proof fn lemma_read_deterministic(a: Seq<Tok>, b: Seq<Tok>)
    requires
        a == b,
    ensures
        document(a) == document(b),
{
}

/// A node without children and without text is written as one self-closing tag.
pub proof fn lemma_self_closing(t: Tree)
    requires
        t.childs.len() == 0,
        t.content.len() == 0,
    ensures
        tokens_of(t) == seq![Tok::Empty(t.name, t.attributes)],
{
}

} // verus!
