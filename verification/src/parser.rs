//! The grammar engine: recognises the textual structure of the language and
//! produces an ordered tree of rule-tagged nodes, or a located syntax error.
//!
//! The grammar is line-oriented. A document is a head of directives followed
//! by a body interleaving entity blocks and relationship statements. An
//! option block must open on the same line as the construct it decorates;
//! its closing brace may fall on a later line, but nothing other than a
//! line comment or the end of the line may follow that closing brace.
//! Line comments start with `#` and run to the end of the line, except
//! inside a double-quoted value, where `#` is an ordinary character.
//! Leading whitespace on a line is never significant.

use crate::er::{spec_card_by_name, Cardinality};
use crate::errors::{Error, ErrorView, Expected};
use vstd::prelude::*;

verus! {

// ---------------------------------------------------------------------------
// Character classes
// ---------------------------------------------------------------------------

/// An inline whitespace character: one that may separate tokens on a line.
pub open spec fn is_ws_char(c: char) -> bool {
    c == ' ' || c == '\t' || c == '\r'
}

/// A character with a fixed structural meaning, never part of an unquoted
/// identifier.
pub open spec fn is_special_char(c: char) -> bool {
    ||| c == '['
    ||| c == ']'
    ||| c == '{'
    ||| c == '}'
    ||| c == '#'
    ||| c == '"'
    ||| c == '\''
    ||| c == '`'
    ||| c == ','
    ||| c == ':'
}

/// A character that may appear in an unquoted identifier: anything except
/// whitespace, a line break and the structural characters.
pub open spec fn is_ident_char(c: char) -> bool {
    !is_ws_char(c) && c != '\n' && !is_special_char(c)
}

// ---------------------------------------------------------------------------
// Skipping layout
// ---------------------------------------------------------------------------

/// The position after any run of inline whitespace starting at `i`.
pub open spec fn spec_skip_ws(s: Seq<char>, i: int) -> int
    decreases s.len() - i,
{
    if 0 <= i < s.len() && is_ws_char(s[i]) {
        spec_skip_ws(s, i + 1)
    } else {
        i
    }
}

/// The position of the line break (or the end of the text) that closes a
/// comment starting at `i`.
pub open spec fn spec_skip_comment(s: Seq<char>, i: int) -> int
    decreases s.len() - i,
{
    if 0 <= i < s.len() && s[i] != '\n' {
        spec_skip_comment(s, i + 1)
    } else {
        i
    }
}

/// The position of the next significant character at or after `i`: inline
/// whitespace, line breaks and comments are all passed over.
pub open spec fn spec_skip_layout(s: Seq<char>, i: int) -> int
    decreases s.len() - i,
{
    if 0 <= i < s.len() {
        if is_ws_char(s[i]) || s[i] == '\n' {
            spec_skip_layout(s, i + 1)
        } else if s[i] == '#' {
            let j = spec_skip_comment(s, i);
            if i < j <= s.len() {
                spec_skip_layout(s, j)
            } else {
                j
            }
        } else {
            i
        }
    } else {
        i
    }
}

/// The line discipline that closes every construct: only whitespace and an
/// optional comment may remain before the line break or the end of the
/// text. Yields the position after the line break, or nothing if other
/// text is in the way.
pub open spec fn spec_line_end(s: Seq<char>, i: int) -> Option<int> {
    let j = spec_skip_ws(s, i);
    if j >= s.len() {
        Some(j)
    } else if s[j] == '\n' {
        Some(j + 1)
    } else if s[j] == '#' {
        let k = spec_skip_comment(s, j);
        if k >= s.len() {
            Some(k)
        } else {
            Some(k + 1)
        }
    } else {
        None
    }
}

// ---------------------------------------------------------------------------
// Identifiers and option blocks
// ---------------------------------------------------------------------------

/// The position after the run of identifier characters starting at `i`.
pub open spec fn spec_ident_end(s: Seq<char>, i: int) -> int
    decreases s.len() - i,
{
    if 0 <= i < s.len() && is_ident_char(s[i]) {
        spec_ident_end(s, i + 1)
    } else {
        i
    }
}

/// The position of the first occurrence of `q` at or after `i`, if any.
pub open spec fn spec_find_char(s: Seq<char>, i: int, q: char) -> Option<int>
    decreases s.len() - i,
{
    if 0 <= i < s.len() {
        if s[i] == q {
            Some(i)
        } else {
            spec_find_char(s, i + 1, q)
        }
    } else {
        None
    }
}

/// An identifier at `i`: either a run of identifier characters, or a name
/// wrapped in backticks, single quotes or double quotes (for names holding
/// spaces). Yields the name with the quotes stripped, and the position
/// after it.
pub open spec fn spec_ident(s: Seq<char>, i: int) -> Option<(Seq<char>, int)> {
    if 0 <= i < s.len() {
        let c = s[i];
        if c == '"' || c == '\'' || c == '`' {
            match spec_find_char(s, i + 1, c) {
                Some(j) => Some((s.subrange(i + 1, j), j + 1)),
                None => None,
            }
        } else if is_ident_char(c) {
            Some((s.subrange(i, spec_ident_end(s, i)), spec_ident_end(s, i)))
        } else {
            None
        }
    } else {
        None
    }
}

/// One key/value pair of an option block.
pub struct OptPairView {
    /// The key, as written.
    pub key: Seq<char>,
    /// The value, still wrapped in its double quotes.
    pub value: Seq<char>,
}

/// A key/value pair at `i`: an unquoted key, a colon, and a double-quoted
/// value. Layout may fall between the tokens; `#` inside the value is an
/// ordinary character.
pub open spec fn spec_opt_pair(s: Seq<char>, i: int) -> Option<(OptPairView, int)> {
    let j = spec_ident_end(s, i);
    if j > i {
        let k = spec_skip_layout(s, j);
        if 0 <= k < s.len() && s[k] == ':' {
            let m = spec_skip_layout(s, k + 1);
            if 0 <= m < s.len() && s[m] == '"' {
                match spec_find_char(s, m + 1, '"') {
                    Some(e) => Some(
                        (OptPairView { key: s.subrange(i, j), value: s.subrange(m, e + 1) }, e + 1),
                    ),
                    None => None,
                }
            } else {
                None
            }
        } else {
            None
        }
    } else {
        None
    }
}

/// The pairs of an option block, starting at the first key (layout already
/// passed over) and ending after the closing brace. At least one pair is
/// required; pairs are separated by commas and a trailing comma is
/// allowed.
pub open spec fn spec_opt_pairs(s: Seq<char>, i: int) -> Option<(Seq<OptPairView>, int)>
    decreases s.len() - i,
{
    match spec_opt_pair(s, i) {
        Some((p, j)) => if j > i {
            let k = spec_skip_layout(s, j);
            if 0 <= k < s.len() && s[k] == ',' {
                let m = spec_skip_layout(s, k + 1);
                if 0 <= m < s.len() && s[m] == '}' {
                    Some((seq![p], m + 1))
                } else if i < m <= s.len() {
                    match spec_opt_pairs(s, m) {
                        Some((rest, e)) => Some((seq![p] + rest, e)),
                        None => None,
                    }
                } else {
                    None
                }
            } else if 0 <= k < s.len() && s[k] == '}' {
                Some((seq![p], k + 1))
            } else {
                None
            }
        } else {
            None
        },
        None => None,
    }
}

/// An option block at `i`: an opening brace, one or more key/value pairs,
/// and a closing brace. The brace must stand exactly at `i`.
pub open spec fn spec_opt_list(s: Seq<char>, i: int) -> Option<(Seq<OptPairView>, int)> {
    if 0 <= i < s.len() && s[i] == '{' {
        let j = spec_skip_layout(s, i + 1);
        if j > i {
            spec_opt_pairs(s, j)
        } else {
            None
        }
    } else {
        None
    }
}

/// What may follow a construct on its line: an option block opening on the
/// same line, and in any case the line discipline of [`spec_line_end`].
/// Yields the block's pairs (if one was present) and the position after
/// the line.
pub open spec fn spec_opts_eol(s: Seq<char>, i: int) -> Option<(Option<Seq<OptPairView>>, int)> {
    let w = spec_skip_ws(s, i);
    if 0 <= w < s.len() && s[w] == '{' {
        match spec_opt_list(s, w) {
            Some((ps, e)) => match spec_line_end(s, e) {
                Some(e2) => Some((Some(ps), e2)),
                None => None,
            },
            None => None,
        }
    } else {
        match spec_line_end(s, i) {
            Some(e2) => Some((None, e2)),
            None => None,
        }
    }
}

// ---------------------------------------------------------------------------
// Directives
// ---------------------------------------------------------------------------

/// The four object kinds a head directive may set defaults for.
#[derive(Clone, Copy, Debug, PartialEq, Eq, Structural)]
pub enum DirectiveKind {
    Title,
    Header,
    Entity,
    Relationship,
}

/// The directive kind a keyword names, if it is one of the four.
pub open spec fn spec_dkind(name: Seq<char>) -> Option<DirectiveKind> {
    if name == "title"@ {
        Some(DirectiveKind::Title)
    } else if name == "header"@ {
        Some(DirectiveKind::Header)
    } else if name == "entity"@ {
        Some(DirectiveKind::Entity)
    } else if name == "relationship"@ {
        Some(DirectiveKind::Relationship)
    } else {
        None
    }
}

/// A head directive node: its kind and its option block, if it carried one.
pub struct DirectiveView {
    pub kind: DirectiveKind,
    pub opts: Option<Seq<OptPairView>>,
}

/// A directive at `i` (layout already passed over): one of the four
/// keywords, an optional option block opening on the same line, and the
/// line discipline.
pub open spec fn spec_directive(s: Seq<char>, i: int) -> Option<(DirectiveView, int)> {
    let j = spec_ident_end(s, i);
    if j > i {
        match spec_dkind(s.subrange(i, j)) {
            Some(k) => match spec_opts_eol(s, j) {
                Some((opts, e)) => Some((DirectiveView { kind: k, opts }, e)),
                None => None,
            },
            None => None,
        }
    } else {
        None
    }
}

/// The head of a document: as many directives as parse, each consumed with
/// its line. Yields the directives and the position where the head ends.
pub open spec fn spec_head(s: Seq<char>, i: int) -> (Seq<DirectiveView>, int)
    decreases s.len() - i,
{
    let j = spec_skip_layout(s, i);
    match spec_directive(s, j) {
        Some((d, e)) => if i < e <= s.len() {
            let (rest, e2) = spec_head(s, e);
            (seq![d] + rest, e2)
        } else {
            (Seq::empty(), i)
        },
        None => (Seq::empty(), i),
    }
}

// ---------------------------------------------------------------------------
// Body constructs
// ---------------------------------------------------------------------------

/// An attribute line node.
pub struct AttrNodeView {
    pub pk: bool,
    pub fk: bool,
    pub name: Seq<char>,
    pub opts: Option<Seq<OptPairView>>,
}

/// An entity block node: its name, its inline option block and its
/// attribute lines in order.
pub struct EntityNodeView {
    pub name: Seq<char>,
    pub opts: Option<Seq<OptPairView>>,
    pub attrs: Seq<AttrNodeView>,
}

/// A relationship statement node.
pub struct RelNodeView {
    pub entity1: Seq<char>,
    pub card1: Cardinality,
    pub card2: Cardinality,
    pub entity2: Seq<char>,
    pub opts: Option<Seq<OptPairView>>,
}

/// One item of a document body.
pub enum ItemView {
    Entity(EntityNodeView),
    Rel(RelNodeView),
}

/// The document: the head's directives and the body's items, in order.
pub struct DocumentView {
    pub head: Seq<DirectiveView>,
    pub items: Seq<ItemView>,
}

/// The key markers in front of an attribute name: any run of `*`
/// (primary key) and `+` (foreign key), separated by inline whitespace.
pub open spec fn spec_keys(s: Seq<char>, i: int) -> (bool, bool, int)
    decreases s.len() - i,
{
    if 0 <= i < s.len() && (s[i] == '*' || s[i] == '+') {
        let j = spec_skip_ws(s, i + 1);
        if i < j <= s.len() {
            let (pk, fk, e) = spec_keys(s, j);
            (pk || s[i] == '*', fk || s[i] == '+', e)
        } else {
            (false, false, i)
        }
    } else {
        (false, false, i)
    }
}

/// An attribute line at `i`: optional key markers, the field name, an
/// optional option block on the same line, and the line discipline.
pub open spec fn spec_attr(s: Seq<char>, i: int) -> Option<(AttrNodeView, int)> {
    let (pk, fk, j) = spec_keys(s, i);
    match spec_ident(s, j) {
        Some((name, k)) => match spec_opts_eol(s, k) {
            Some((opts, e)) => Some((AttrNodeView { pk, fk, name, opts }, e)),
            None => None,
        },
        None => None,
    }
}

/// A relationship statement at `i`: a name, a cardinality symbol, `--`,
/// a second cardinality symbol, a second name, an optional option block on
/// the same line, and the line discipline. Any symbol outside the
/// cardinality table rejects the statement.
pub open spec fn spec_rel(s: Seq<char>, i: int) -> Option<(RelNodeView, int)> {
    match spec_ident(s, i) {
        Some((e1, j)) => {
            let a = spec_skip_ws(s, j);
            if 0 <= a && a + 4 <= s.len() && s[a + 1] == '-' && s[a + 2] == '-' {
                match (spec_card_by_name(s[a]), spec_card_by_name(s[a + 3])) {
                    (Some(c1), Some(c2)) => {
                        let b = spec_skip_ws(s, a + 4);
                        match spec_ident(s, b) {
                            Some((e2, k)) => match spec_opts_eol(s, k) {
                                Some((opts, e)) => Some(
                                    (
                                        RelNodeView {
                                            entity1: e1,
                                            card1: c1,
                                            card2: c2,
                                            entity2: e2,
                                            opts,
                                        },
                                        e,
                                    ),
                                ),
                                None => None,
                            },
                            None => None,
                        }
                    },
                    _ => None,
                }
            } else {
                None
            }
        },
        None => None,
    }
}

/// An entity header at `i`: `[`, the entity name, `]`, an optional option
/// block on the same line, and the line discipline.
pub open spec fn spec_entity_header(s: Seq<char>, i: int) -> Option<
    ((Seq<char>, Option<Seq<OptPairView>>), int),
> {
    if 0 <= i < s.len() && s[i] == '[' {
        let j = spec_skip_ws(s, i + 1);
        match spec_ident(s, j) {
            Some((name, k)) => {
                let m = spec_skip_ws(s, k);
                if 0 <= m < s.len() && s[m] == ']' {
                    match spec_opts_eol(s, m + 1) {
                        Some((opts, e)) => Some(((name, opts), e)),
                        None => None,
                    }
                } else {
                    None
                }
            },
            None => None,
        }
    } else {
        None
    }
}

/// The attribute lines of an entity block: lines are consumed until the
/// text ends, a new entity block opens, or a relationship statement
/// starts; a line that is none of these is a syntax error.
pub open spec fn spec_attrs(s: Seq<char>, i: int) -> Result<(Seq<AttrNodeView>, int), (int, Expected)>
    decreases s.len() - i,
{
    let j = spec_skip_layout(s, i);
    if j >= s.len() {
        Ok((Seq::empty(), j))
    } else if s[j] == '[' {
        Ok((Seq::empty(), j))
    } else {
        match spec_rel(s, j) {
            Some(_) => Ok((Seq::empty(), j)),
            None => match spec_attr(s, j) {
                Some((a, e)) => if i < e <= s.len() {
                    match spec_attrs(s, e) {
                        Ok((rest, e2)) => Ok((seq![a] + rest, e2)),
                        Err(x) => Err(x),
                    }
                } else {
                    Err((j, Expected::AttrOrItem))
                },
                None => Err((j, Expected::AttrOrItem)),
            },
        }
    }
}

/// The body of a document: entity blocks and relationship statements, in
/// any interleaving, consuming the text to its end. A construct that is
/// neither is a syntax error at its first character.
pub open spec fn spec_body(s: Seq<char>, i: int) -> Result<Seq<ItemView>, (int, Expected)>
    decreases s.len() - i,
{
    let j = spec_skip_layout(s, i);
    if j >= s.len() {
        Ok(Seq::empty())
    } else if s[j] == '[' {
        match spec_entity_header(s, j) {
            Some(((name, opts), e)) => match spec_attrs(s, e) {
                Ok((attrs, e2)) => if i < e2 <= s.len() {
                    match spec_body(s, e2) {
                        Ok(rest) => Ok(
                            seq![ItemView::Entity(EntityNodeView { name, opts, attrs })] + rest,
                        ),
                        Err(x) => Err(x),
                    }
                } else {
                    Err((j, Expected::EntityHeader))
                },
                Err(x) => Err(x),
            },
            None => Err((j, Expected::EntityHeader)),
        }
    } else {
        match spec_rel(s, j) {
            Some((r, e)) => if i < e <= s.len() {
                match spec_body(s, e) {
                    Ok(rest) => Ok(seq![ItemView::Rel(r)] + rest),
                    Err(x) => Err(x),
                }
            } else {
                Err((j, Expected::Item))
            },
            None => Err((j, Expected::Item)),
        }
    }
}

/// The whole document: the head's directives, the body's items, and
/// nothing else before the end of the text.
pub open spec fn spec_parse_document(s: Seq<char>) -> Result<DocumentView, ErrorView> {
    let (head, i) = spec_head(s, 0);
    match spec_body(s, i) {
        Ok(items) => Ok(DocumentView { head, items }),
        Err((pos, expected)) => Err(ErrorView::Syntax { pos, expected }),
    }
}

// ---------------------------------------------------------------------------
// The parse tree, as executable data
// ---------------------------------------------------------------------------

/// One key/value pair of an option block; the value keeps its double
/// quotes.
#[derive(Debug, PartialEq)]
pub struct OptPair {
    pub key: String,
    pub value: String,
}

impl View for OptPair {
    type V = OptPairView;

    open spec fn view(&self) -> OptPairView {
        OptPairView { key: self.key@, value: self.value@ }
    }
}

impl DeepView for OptPair {
    type V = OptPairView;

    open spec fn deep_view(&self) -> OptPairView {
        self.view()
    }
}

/// A head directive node.
#[derive(Debug, PartialEq)]
pub struct Directive {
    pub kind: DirectiveKind,
    pub opts: Option<Vec<OptPair>>,
}

impl View for Directive {
    type V = DirectiveView;

    open spec fn view(&self) -> DirectiveView {
        DirectiveView { kind: self.kind, opts: self.opts.deep_view() }
    }
}

impl DeepView for Directive {
    type V = DirectiveView;

    open spec fn deep_view(&self) -> DirectiveView {
        self.view()
    }
}

/// An attribute line node.
#[derive(Debug, PartialEq)]
pub struct AttrNode {
    pub pk: bool,
    pub fk: bool,
    pub name: String,
    pub opts: Option<Vec<OptPair>>,
}

impl View for AttrNode {
    type V = AttrNodeView;

    open spec fn view(&self) -> AttrNodeView {
        AttrNodeView { pk: self.pk, fk: self.fk, name: self.name@, opts: self.opts.deep_view() }
    }
}

impl DeepView for AttrNode {
    type V = AttrNodeView;

    open spec fn deep_view(&self) -> AttrNodeView {
        self.view()
    }
}

/// An entity block node.
#[derive(Debug, PartialEq)]
pub struct EntityNode {
    pub name: String,
    pub opts: Option<Vec<OptPair>>,
    pub attrs: Vec<AttrNode>,
}

impl View for EntityNode {
    type V = EntityNodeView;

    open spec fn view(&self) -> EntityNodeView {
        EntityNodeView {
            name: self.name@,
            opts: self.opts.deep_view(),
            attrs: self.attrs.deep_view(),
        }
    }
}

impl DeepView for EntityNode {
    type V = EntityNodeView;

    open spec fn deep_view(&self) -> EntityNodeView {
        self.view()
    }
}

/// A relationship statement node.
#[derive(Debug, PartialEq)]
pub struct RelNode {
    pub entity1: String,
    pub card1: Cardinality,
    pub card2: Cardinality,
    pub entity2: String,
    pub opts: Option<Vec<OptPair>>,
}

impl View for RelNode {
    type V = RelNodeView;

    open spec fn view(&self) -> RelNodeView {
        RelNodeView {
            entity1: self.entity1@,
            card1: self.card1,
            card2: self.card2,
            entity2: self.entity2@,
            opts: self.opts.deep_view(),
        }
    }
}

impl DeepView for RelNode {
    type V = RelNodeView;

    open spec fn deep_view(&self) -> RelNodeView {
        self.view()
    }
}

/// One item of a document body.
#[derive(Debug, PartialEq)]
pub enum Item {
    Entity(EntityNode),
    Rel(RelNode),
}

impl View for Item {
    type V = ItemView;

    open spec fn view(&self) -> ItemView {
        match self {
            Item::Entity(e) => ItemView::Entity(e@),
            Item::Rel(r) => ItemView::Rel(r@),
        }
    }
}

impl DeepView for Item {
    type V = ItemView;

    open spec fn deep_view(&self) -> ItemView {
        self.view()
    }
}

/// The root parse-tree node: the head's directives and the body's items.
#[derive(Debug, PartialEq)]
pub struct Document {
    pub head: Vec<Directive>,
    pub items: Vec<Item>,
}

impl View for Document {
    type V = DocumentView;

    open spec fn view(&self) -> DocumentView {
        DocumentView { head: self.head.deep_view(), items: self.items.deep_view() }
    }
}

// ---------------------------------------------------------------------------
// The scanner
// ---------------------------------------------------------------------------

fn ws_char(c: char) -> (r: bool)
    ensures
        r == is_ws_char(c),
{
    c == ' ' || c == '\t' || c == '\r'
}

fn special_char(c: char) -> (r: bool)
    ensures
        r == is_special_char(c),
{
    c == '[' || c == ']' || c == '{' || c == '}' || c == '#' || c == '"' || c == '\'' || c == '`'
        || c == ',' || c == ':'
}

fn ident_char(c: char) -> (r: bool)
    ensures
        r == is_ident_char(c),
{
    !ws_char(c) && c != '\n' && !special_char(c)
}

fn skip_ws(s: &str, n: usize, i: usize) -> (r: usize)
    requires
        n == s@.len(),
        i <= n,
    ensures
        i <= r <= n,
        r as int == spec_skip_ws(s@, i as int),
    decreases n - i,
{
    if i < n && ws_char(s.get_char(i)) {
        skip_ws(s, n, i + 1)
    } else {
        i
    }
}

fn skip_comment(s: &str, n: usize, i: usize) -> (r: usize)
    requires
        n == s@.len(),
        i <= n,
    ensures
        i <= r <= n,
        r as int == spec_skip_comment(s@, i as int),
    decreases n - i,
{
    if i < n && s.get_char(i) != '\n' {
        skip_comment(s, n, i + 1)
    } else {
        i
    }
}

fn skip_layout(s: &str, n: usize, i: usize) -> (r: usize)
    requires
        n == s@.len(),
        i <= n,
    ensures
        i <= r <= n,
        r as int == spec_skip_layout(s@, i as int),
    decreases n - i,
{
    if i < n {
        let c = s.get_char(i);
        if ws_char(c) || c == '\n' {
            skip_layout(s, n, i + 1)
        } else if c == '#' {
            let j = skip_comment(s, n, i);
            if i < j {
                skip_layout(s, n, j)
            } else {
                j
            }
        } else {
            i
        }
    } else {
        i
    }
}

fn line_end(s: &str, n: usize, i: usize) -> (r: Option<usize>)
    requires
        n == s@.len(),
        i <= n,
    ensures
        match (r, spec_line_end(s@, i as int)) {
            (Some(j), Some(jv)) => j as int == jv && i <= j <= n,
            (None, None) => true,
            _ => false,
        },
{
    let j = skip_ws(s, n, i);
    if j >= n {
        Some(j)
    } else {
        let c = s.get_char(j);
        if c == '\n' {
            Some(j + 1)
        } else if c == '#' {
            let k = skip_comment(s, n, j);
            if k >= n {
                Some(k)
            } else {
                Some(k + 1)
            }
        } else {
            None
        }
    }
}

fn ident_end(s: &str, n: usize, i: usize) -> (r: usize)
    requires
        n == s@.len(),
        i <= n,
    ensures
        i <= r <= n,
        r as int == spec_ident_end(s@, i as int),
    decreases n - i,
{
    if i < n && ident_char(s.get_char(i)) {
        ident_end(s, n, i + 1)
    } else {
        i
    }
}

fn find_char(s: &str, n: usize, i: usize, q: char) -> (r: Option<usize>)
    requires
        n == s@.len(),
        i <= n,
    ensures
        match (r, spec_find_char(s@, i as int, q)) {
            (Some(j), Some(jv)) => j as int == jv && i <= j < n,
            (None, None) => true,
            _ => false,
        },
    decreases n - i,
{
    if i < n {
        if s.get_char(i) == q {
            Some(i)
        } else {
            find_char(s, n, i + 1, q)
        }
    } else {
        None
    }
}

fn parse_ident(s: &str, n: usize, i: usize) -> (r: Option<(String, usize)>)
    requires
        n == s@.len(),
        i <= n,
    ensures
        match (r, spec_ident(s@, i as int)) {
            (Some((name, j)), Some((nv, jv))) => name@ == nv && j as int == jv && i < j <= n,
            (None, None) => true,
            _ => false,
        },
{
    if i < n {
        let c = s.get_char(i);
        if c == '"' || c == '\'' || c == '`' {
            match find_char(s, n, i + 1, c) {
                Some(j) => Some((String::from_str(s.substring_char(i + 1, j)), j + 1)),
                None => None,
            }
        } else if ident_char(c) {
            let j = ident_end(s, n, i + 1);
            Some((String::from_str(s.substring_char(i, j)), j))
        } else {
            None
        }
    } else {
        None
    }
}

fn parse_opt_pair(s: &str, n: usize, i: usize) -> (r: Option<(OptPair, usize)>)
    requires
        n == s@.len(),
        i <= n,
    ensures
        match (r, spec_opt_pair(s@, i as int)) {
            (Some((p, j)), Some((pv, jv))) => p@ == pv && j as int == jv && i < j <= n,
            (None, None) => true,
            _ => false,
        },
{
    let j = ident_end(s, n, i);
    if j > i {
        let k = skip_layout(s, n, j);
        if k < n && s.get_char(k) == ':' {
            let m = skip_layout(s, n, k + 1);
            if m < n && s.get_char(m) == '"' {
                match find_char(s, n, m + 1, '"') {
                    Some(e) => {
                        let key = String::from_str(s.substring_char(i, j));
                        let value = String::from_str(s.substring_char(m, e + 1));
                        Some((OptPair { key, value }, e + 1))
                    },
                    None => None,
                }
            } else {
                None
            }
        } else {
            None
        }
    } else {
        None
    }
}

fn parse_opt_pairs(s: &str, n: usize, i: usize) -> (r: Option<(Vec<OptPair>, usize)>)
    requires
        n == s@.len(),
        i <= n,
    ensures
        match (r, spec_opt_pairs(s@, i as int)) {
            (Some((v, j)), Some((vv, jv))) => v.deep_view() == vv && j as int == jv && i < j <= n,
            (None, None) => true,
            _ => false,
        },
    decreases n - i,
{
    match parse_opt_pair(s, n, i) {
        Some((p, j)) => {
            let ghost pv = p.deep_view();
            if j > i {
                let k = skip_layout(s, n, j);
                if k < n && s.get_char(k) == ',' {
                    let m = skip_layout(s, n, k + 1);
                    if m < n && s.get_char(m) == '}' {
                        let mut v: Vec<OptPair> = Vec::new();
                        v.push(p);
                        proof {
                            assert(v.deep_view() =~= seq![pv]);
                        }
                        Some((v, m + 1))
                    } else if i < m {
                        match parse_opt_pairs(s, n, m) {
                            Some((rest, e)) => {
                                let ghost rv = rest.deep_view();
                                let mut v = rest;
                                v.insert(0, p);
                                proof {
                                    assert(v.deep_view() =~= seq![pv] + rv);
                                }
                                Some((v, e))
                            },
                            None => None,
                        }
                    } else {
                        None
                    }
                } else if k < n && s.get_char(k) == '}' {
                    let mut v: Vec<OptPair> = Vec::new();
                    v.push(p);
                    proof {
                        assert(v.deep_view() =~= seq![pv]);
                    }
                    Some((v, k + 1))
                } else {
                    None
                }
            } else {
                None
            }
        },
        None => None,
    }
}

fn parse_opt_list(s: &str, n: usize, i: usize) -> (r: Option<(Vec<OptPair>, usize)>)
    requires
        n == s@.len(),
        i <= n,
    ensures
        match (r, spec_opt_list(s@, i as int)) {
            (Some((v, j)), Some((vv, jv))) => v.deep_view() == vv && j as int == jv && i < j <= n,
            (None, None) => true,
            _ => false,
        },
{
    if i < n && s.get_char(i) == '{' {
        let j = skip_layout(s, n, i + 1);
        if j > i {
            parse_opt_pairs(s, n, j)
        } else {
            None
        }
    } else {
        None
    }
}

fn parse_opts_eol(s: &str, n: usize, i: usize) -> (r: Option<(Option<Vec<OptPair>>, usize)>)
    requires
        n == s@.len(),
        i <= n,
    ensures
        match (r, spec_opts_eol(s@, i as int)) {
            (Some((opts, j)), Some((ov, jv))) => opts.deep_view() == ov && j as int == jv && i <= j
                <= n,
            (None, None) => true,
            _ => false,
        },
{
    let w = skip_ws(s, n, i);
    if w < n && s.get_char(w) == '{' {
        match parse_opt_list(s, n, w) {
            Some((ps, e)) => match line_end(s, n, e) {
                Some(e2) => Some((Some(ps), e2)),
                None => None,
            },
            None => None,
        }
    } else {
        match line_end(s, n, i) {
            Some(e2) => Some((None, e2)),
            None => None,
        }
    }
}

fn dkind_of(name: &str) -> (r: Option<DirectiveKind>)
    ensures
        r == spec_dkind(name@),
{
    if crate::er::str_eq(name, "title") {
        Some(DirectiveKind::Title)
    } else if crate::er::str_eq(name, "header") {
        Some(DirectiveKind::Header)
    } else if crate::er::str_eq(name, "entity") {
        Some(DirectiveKind::Entity)
    } else if crate::er::str_eq(name, "relationship") {
        Some(DirectiveKind::Relationship)
    } else {
        None
    }
}

fn parse_directive(s: &str, n: usize, i: usize) -> (r: Option<(Directive, usize)>)
    requires
        n == s@.len(),
        i <= n,
    ensures
        match (r, spec_directive(s@, i as int)) {
            (Some((d, j)), Some((dv, jv))) => d@ == dv && j as int == jv && i <= j <= n,
            (None, None) => true,
            _ => false,
        },
{
    let j = ident_end(s, n, i);
    if j > i {
        match dkind_of(s.substring_char(i, j)) {
            Some(k) => match parse_opts_eol(s, n, j) {
                Some((opts, e)) => Some((Directive { kind: k, opts }, e)),
                None => None,
            },
            None => None,
        }
    } else {
        None
    }
}

fn parse_head(s: &str, n: usize, i: usize) -> (r: (Vec<Directive>, usize))
    requires
        n == s@.len(),
        i <= n,
    ensures
        ({
            let (hv, ev) = spec_head(s@, i as int);
            r.0.deep_view() == hv && r.1 as int == ev && i <= r.1 <= n
        }),
    decreases n - i,
{
    let j = skip_layout(s, n, i);
    match parse_directive(s, n, j) {
        Some((d, e)) => if i < e {
            let ghost dv = d.deep_view();
            let (rest, e2) = parse_head(s, n, e);
            let ghost rv = rest.deep_view();
            let mut v = rest;
            v.insert(0, d);
            proof {
                assert(v.deep_view() =~= seq![dv] + rv);
            }
            (v, e2)
        } else {
            let v: Vec<Directive> = Vec::new();
            proof {
                assert(v.deep_view() =~= Seq::<DirectiveView>::empty());
            }
            (v, i)
        },
        None => {
            let v: Vec<Directive> = Vec::new();
            proof {
                assert(v.deep_view() =~= Seq::<DirectiveView>::empty());
            }
            (v, i)
        },
    }
}

fn parse_keys(s: &str, n: usize, i: usize) -> (r: (bool, bool, usize))
    requires
        n == s@.len(),
        i <= n,
    ensures
        ({
            let (pk, fk, e) = spec_keys(s@, i as int);
            r.0 == pk && r.1 == fk && r.2 as int == e && i <= r.2 <= n
        }),
    decreases n - i,
{
    if i < n {
        let c = s.get_char(i);
        if c == '*' || c == '+' {
            let j = skip_ws(s, n, i + 1);
            if i < j {
                let (pk, fk, e) = parse_keys(s, n, j);
                (pk || c == '*', fk || c == '+', e)
            } else {
                (false, false, i)
            }
        } else {
            (false, false, i)
        }
    } else {
        (false, false, i)
    }
}

fn parse_attr(s: &str, n: usize, i: usize) -> (r: Option<(AttrNode, usize)>)
    requires
        n == s@.len(),
        i <= n,
    ensures
        match (r, spec_attr(s@, i as int)) {
            (Some((a, j)), Some((av, jv))) => a@ == av && j as int == jv && i <= j <= n,
            (None, None) => true,
            _ => false,
        },
{
    let (pk, fk, j) = parse_keys(s, n, i);
    match parse_ident(s, n, j) {
        Some((name, k)) => match parse_opts_eol(s, n, k) {
            Some((opts, e)) => Some((AttrNode { pk, fk, name, opts }, e)),
            None => None,
        },
        None => None,
    }
}

fn parse_rel(s: &str, n: usize, i: usize) -> (r: Option<(RelNode, usize)>)
    requires
        n == s@.len(),
        i <= n,
    ensures
        match (r, spec_rel(s@, i as int)) {
            (Some((x, j)), Some((xv, jv))) => x@ == xv && j as int == jv && i <= j <= n,
            (None, None) => true,
            _ => false,
        },
{
    match parse_ident(s, n, i) {
        Some((e1, j)) => {
            let a = skip_ws(s, n, j);
            if n >= 4 && a <= n - 4 && s.get_char(a + 1) == '-' && s.get_char(a + 2) == '-' {
                let c1o = crate::er::card_by_name(s.get_char(a));
                let c2o = crate::er::card_by_name(s.get_char(a + 3));
                match (c1o, c2o) {
                    (Some(c1), Some(c2)) => {
                        let b = skip_ws(s, n, a + 4);
                        match parse_ident(s, n, b) {
                            Some((e2, k)) => match parse_opts_eol(s, n, k) {
                                Some((opts, e)) => Some(
                                    (
                                        RelNode {
                                            entity1: e1,
                                            card1: c1,
                                            card2: c2,
                                            entity2: e2,
                                            opts,
                                        },
                                        e,
                                    ),
                                ),
                                None => None,
                            },
                            None => None,
                        }
                    },
                    _ => None,
                }
            } else {
                None
            }
        },
        None => None,
    }
}

fn parse_entity_header(s: &str, n: usize, i: usize) -> (r: Option<
    ((String, Option<Vec<OptPair>>), usize),
>)
    requires
        n == s@.len(),
        i <= n,
    ensures
        match (r, spec_entity_header(s@, i as int)) {
            (Some(((name, opts), j)), Some(((nv, ov), jv))) => name@ == nv && opts.deep_view() == ov
                && j as int == jv && i <= j <= n,
            (None, None) => true,
            _ => false,
        },
{
    if i < n && s.get_char(i) == '[' {
        let j = skip_ws(s, n, i + 1);
        match parse_ident(s, n, j) {
            Some((name, k)) => {
                let m = skip_ws(s, n, k);
                if m < n && s.get_char(m) == ']' {
                    match parse_opts_eol(s, n, m + 1) {
                        Some((opts, e)) => Some(((name, opts), e)),
                        None => None,
                    }
                } else {
                    None
                }
            },
            None => None,
        }
    } else {
        None
    }
}

fn parse_attrs(s: &str, n: usize, i: usize) -> (r: Result<(Vec<AttrNode>, usize), Error>)
    requires
        n == s@.len(),
        i <= n,
    ensures
        match (r, spec_attrs(s@, i as int)) {
            (Ok((v, j)), Ok((vv, jv))) => v.deep_view() == vv && j as int == jv && i <= j <= n,
            (Err(e), Err((pos, expected))) => e@ == (ErrorView::Syntax { pos, expected }),
            _ => false,
        },
    decreases n - i,
{
    let j = skip_layout(s, n, i);
    if j >= n {
        let v: Vec<AttrNode> = Vec::new();
        proof {
            assert(v.deep_view() =~= Seq::<AttrNodeView>::empty());
        }
        Ok((v, j))
    } else if s.get_char(j) == '[' {
        let v: Vec<AttrNode> = Vec::new();
        proof {
            assert(v.deep_view() =~= Seq::<AttrNodeView>::empty());
        }
        Ok((v, j))
    } else {
        match parse_rel(s, n, j) {
            Some(_) => {
                let v: Vec<AttrNode> = Vec::new();
                proof {
                    assert(v.deep_view() =~= Seq::<AttrNodeView>::empty());
                }
                Ok((v, j))
            },
            None => match parse_attr(s, n, j) {
                Some((a, e)) => if i < e {
                    let ghost av = a.deep_view();
                    match parse_attrs(s, n, e) {
                        Ok((rest, e2)) => {
                            let ghost rv = rest.deep_view();
                            let mut v = rest;
                            v.insert(0, a);
                            proof {
                                assert(v.deep_view() =~= seq![av] + rv);
                            }
                            Ok((v, e2))
                        },
                        Err(x) => Err(x),
                    }
                } else {
                    Err(Error::Syntax { pos: j, expected: Expected::AttrOrItem })
                },
                None => Err(Error::Syntax { pos: j, expected: Expected::AttrOrItem }),
            },
        }
    }
}

fn parse_body(s: &str, n: usize, i: usize) -> (r: Result<Vec<Item>, Error>)
    requires
        n == s@.len(),
        i <= n,
    ensures
        match (r, spec_body(s@, i as int)) {
            (Ok(v), Ok(vv)) => v.deep_view() == vv,
            (Err(e), Err((pos, expected))) => e@ == (ErrorView::Syntax { pos, expected }),
            _ => false,
        },
    decreases n - i,
{
    let j = skip_layout(s, n, i);
    if j >= n {
        let v: Vec<Item> = Vec::new();
        proof {
            assert(v.deep_view() =~= Seq::<ItemView>::empty());
        }
        Ok(v)
    } else if s.get_char(j) == '[' {
        match parse_entity_header(s, n, j) {
            Some(((name, opts), e)) => match parse_attrs(s, n, e) {
                Ok((attrs, e2)) => if i < e2 {
                    let node = EntityNode { name, opts, attrs };
                    let ghost nv = node.deep_view();
                    match parse_body(s, n, e2) {
                        Ok(rest) => {
                            let ghost rv = rest.deep_view();
                            let mut v = rest;
                            v.insert(0, Item::Entity(node));
                            proof {
                                assert(v.deep_view() =~= seq![ItemView::Entity(nv)] + rv);
                            }
                            Ok(v)
                        },
                        Err(x) => Err(x),
                    }
                } else {
                    Err(Error::Syntax { pos: j, expected: Expected::EntityHeader })
                },
                Err(x) => Err(x),
            },
            None => Err(Error::Syntax { pos: j, expected: Expected::EntityHeader }),
        }
    } else {
        match parse_rel(s, n, j) {
            Some((x, e)) => if i < e {
                let ghost xv = x.deep_view();
                match parse_body(s, n, e) {
                    Ok(rest) => {
                        let ghost rv = rest.deep_view();
                        let mut v = rest;
                        v.insert(0, Item::Rel(x));
                        proof {
                            assert(v.deep_view() =~= seq![ItemView::Rel(xv)] + rv);
                        }
                        Ok(v)
                    },
                    Err(x2) => Err(x2),
                }
            } else {
                Err(Error::Syntax { pos: j, expected: Expected::Item })
            },
            None => Err(Error::Syntax { pos: j, expected: Expected::Item }),
        }
    }
}

/// The view of a grammar-engine result.
pub open spec fn res_doc_view(r: Result<Document, Error>) -> Result<DocumentView, ErrorView> {
    match r {
        Ok(d) => Ok(d@),
        Err(e) => Err(e@),
    }
}

/// Parses a plain text straight into a diagram model: the tree from
/// [`parse_pairs`] is assembled by the semantic pass, so the result is
/// exactly what [`crate::er::spec_parse_er`] gives for the text.
pub fn parse(input: &str) -> (r: Result<crate::er::ER, Error>)
    ensures
        crate::er::res_er_view(r) == crate::er::spec_parse_er(input@),
{
    crate::er::parse(input)
}

/// Parses a source text into its parse tree: one root node holding the
/// head's directives and the body's items, exactly as
/// [`spec_parse_document`] describes, or the syntax error it describes.
pub fn parse_pairs(input: &str) -> (r: Result<Document, Error>)
    ensures
        res_doc_view(r) == spec_parse_document(input@),
{
    let n = input.unicode_len();
    let (head, i) = parse_head(input, n, 0);
    match parse_body(input, n, i) {
        Ok(items) => Ok(Document { head, items }),
        Err(e) => Err(e),
    }
}

} // verus!
