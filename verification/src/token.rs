//! A shape as one token of text, `kind(fields)`, and a list of tokens as a
//! list of shapes.

use crate::codec::{find_char, first_index, lemma_first_index};
use crate::decimal::chars_of;
use crate::elem::{elem_views, lemma_fields_read_back, Elem, ElemView};
use crate::json::texts;
use vstd::prelude::*;
use vstd::string::*;

verus! {

/// Why a token stands for no shape.
#[derive(Clone, Copy, Debug, PartialEq, Eq, Structural)]
pub enum TokenError {
    /// No prototype of the kind that the token names is registered.
    UnknownKind,
    /// The token lacks its brackets, or its fields are not those of a shape
    /// of its kind in the world.
    BadField,
}

/// Why a text was not imported.
#[derive(Clone, Copy, Debug, PartialEq, Eq, Structural)]
pub enum ImportError {
    /// The text is no JSON object with a list of strings under `elems`.
    Json,
    /// The token at the given index names a kind that is not registered.
    UnknownKind(usize),
    /// The token at the given index has fields that give no shape.
    BadField(usize),
}

/// The token of a shape: the name of its kind, and its text in brackets.
pub open spec fn token(e: ElemView) -> Seq<char> {
    e.kind() + seq!['('] + e.fields() + seq![')']
}

/// The tokens of the shapes of a list, in order.
pub open spec fn tokens_of(elems: Seq<ElemView>) -> Seq<Seq<char>> {
    Seq::new(elems.len(), |i: int| token(elems[i]))
}

/// The shapes of a list as their tokens keep them.
pub open spec fn plain_all(elems: Seq<ElemView>) -> Seq<ElemView> {
    Seq::new(elems.len(), |i: int| elems[i].plain())
}

/// The first prototype of `registry` of the kind named `kind`.
pub open spec fn prototype(registry: Seq<ElemView>, kind: Seq<char>) -> Option<ElemView>
    decreases registry.len(),
{
    if registry.len() == 0 {
        None
    } else if registry[0].kind() == kind {
        Some(registry[0])
    } else {
        prototype(registry.drop_first(), kind)
    }
}

/// The shape that a token stands for. The kind is what stands before the
/// first `(`; the fields are what stands between that bracket and a `)` at
/// the very end, whatever brackets they hold themselves.
pub open spec fn parse_token(registry: Seq<ElemView>, t: Seq<char>) -> Result<
    ElemView,
    TokenError,
> {
    let i = first_index(t, '(');
    match prototype(registry, t.subrange(0, i)) {
        None => Err(TokenError::UnknownKind),
        Some(p) => if i >= t.len() || t.last() != ')' {
            Err(TokenError::BadField)
        } else {
            match p.parsed(t.subrange(i + 1, t.len() - 1)) {
                Some(e) => Ok(e),
                None => Err(TokenError::BadField),
            }
        },
    }
}

/// The shapes that the first `n` tokens stand for, or the error of the first
/// token that stands for none.
pub open spec fn parse_tokens(registry: Seq<ElemView>, tokens: Seq<Seq<char>>, n: nat) -> Result<
    Seq<ElemView>,
    ImportError,
>
    decreases n,
{
    if n == 0 {
        Ok(Seq::empty())
    } else {
        match parse_tokens(registry, tokens, (n - 1) as nat) {
            Err(e) => Err(e),
            Ok(elems) => match parse_token(registry, tokens[n - 1]) {
                Ok(e) => Ok(elems.push(e)),
                Err(TokenError::UnknownKind) => Err(ImportError::UnknownKind((n - 1) as usize)),
                Err(TokenError::BadField) => Err(ImportError::BadField((n - 1) as usize)),
            },
        }
    }
}

/// What the import of a decoded text gives: the shapes of its tokens, or why
/// there are none.
pub open spec fn import_result(registry: Seq<ElemView>, items: Option<Seq<Seq<char>>>) -> Result<
    Seq<ElemView>,
    ImportError,
> {
    match items {
        None => Err(ImportError::Json),
        Some(tokens) => parse_tokens(registry, tokens, tokens.len()),
    }
}

/// Writes the token of a shape.
pub fn write_token(elem: &Elem) -> (r: String)
    ensures
        r@ == token(elem@),
{
    proof {
        reveal_strlit("(");
        reveal_strlit(")");
    }
    let mut out = elem.elem_type();
    out.append("(");
    out.append(elem.export().as_str());
    out.append(")");
    assert(out@ =~= token(elem@));
    out
}

/// Finds the first prototype of the kind named `kind`.
fn find_prototype<'a>(registry: &'a Vec<Elem>, kind: &String) -> (r: Option<&'a Elem>)
    ensures
        match r {
            Some(p) => prototype(elem_views(registry@), kind@) == Some(p@),
            None => prototype(elem_views(registry@), kind@) is None,
        },
{
    let ghost all = elem_views(registry@);
    let mut i: usize = 0;
    assert(all.subrange(0, all.len() as int) =~= all);
    while i < registry.len()
        invariant
            i <= registry@.len(),
            all == elem_views(registry@),
            prototype(all, kind@) == prototype(all.subrange(i as int, all.len() as int), kind@),
        decreases registry@.len() - i,
    {
        let ghost rest = all.subrange(i as int, all.len() as int);
        assert(rest[0] == registry@[i as int]@);
        assert(rest.drop_first() =~= all.subrange(i + 1, all.len() as int));
        let name = registry[i].elem_type();
        if name == *kind {
            return Some(&registry[i]);
        }
        i = i + 1;
    }
    None
}

/// Reads the shape that a token stands for.
pub fn read_token(registry: &Vec<Elem>, text: &str) -> (r: Result<Elem, TokenError>)
    ensures
        match r {
            Ok(e) => parse_token(elem_views(registry@), text@) == Ok::<ElemView, TokenError>(e@)
                && e.wf(),
            Err(x) => parse_token(elem_views(registry@), text@) == Err::<ElemView, TokenError>(x),
        },
{
    let chars = chars_of(text);
    let n: usize = chars.len();
    assert(chars@.subrange(0, n as int) =~= text@);
    let i: usize = find_char(&chars, 0, n, '(');
    let kind = text.substring_char(0, i).to_owned();
    match find_prototype(registry, &kind) {
        None => Err(TokenError::UnknownKind),
        Some(p) => {
            if i >= n || chars[n - 1] != ')' {
                Err(TokenError::BadField)
            } else {
                match p.import(text.substring_char(i + 1, n - 1)) {
                    Some(e) => Ok(e),
                    None => Err(TokenError::BadField),
                }
            }
        },
    }
}

/// Reads the shapes that the tokens of a list stand for.
pub fn read_tokens(registry: &Vec<Elem>, tokens: &Vec<String>) -> (r: Result<
    Vec<Elem>,
    ImportError,
>)
    ensures
        match r {
            Ok(elems) => parse_tokens(
                elem_views(registry@),
                texts(tokens@),
                tokens@.len(),
            ) == Ok::<Seq<ElemView>, ImportError>(elem_views(elems@)) && forall|i: int|
                0 <= i < elems@.len() ==> (#[trigger] elems@[i]).wf(),
            Err(x) => parse_tokens(elem_views(registry@), texts(tokens@), tokens@.len())
                == Err::<Seq<ElemView>, ImportError>(x),
        },
{
    let mut elems: Vec<Elem> = Vec::new();
    let mut i: usize = 0;
    assert(elem_views(elems@) =~= Seq::<ElemView>::empty());
    while i < tokens.len()
        invariant
            i <= tokens@.len(),
            parse_tokens(elem_views(registry@), texts(tokens@), i as nat) == Ok::<
                Seq<ElemView>,
                ImportError,
            >(elem_views(elems@)),
            forall|j: int| 0 <= j < elems@.len() ==> (#[trigger] elems@[j]).wf(),
        decreases tokens@.len() - i,
    {
        let ghost before = elem_views(elems@);
        match read_token(registry, tokens[i].as_str()) {
            Ok(e) => {
                elems.push(e);
                assert(elem_views(elems@) =~= before.push(e@));
            },
            Err(TokenError::UnknownKind) => {
                proof {
                    lemma_parse_tokens_stops(
                        elem_views(registry@),
                        texts(tokens@),
                        (i + 1) as nat,
                        tokens@.len(),
                    );
                }
                return Err(ImportError::UnknownKind(i));
            },
            Err(TokenError::BadField) => {
                proof {
                    lemma_parse_tokens_stops(
                        elem_views(registry@),
                        texts(tokens@),
                        (i + 1) as nat,
                        tokens@.len(),
                    );
                }
                return Err(ImportError::BadField(i));
            },
        }
        i = i + 1;
    }
    Ok(elems)
}

/// Once a token stood for no shape, the error stays whatever follows.
pub proof fn lemma_parse_tokens_stops(
    registry: Seq<ElemView>,
    tokens: Seq<Seq<char>>,
    n: nat,
    m: nat,
)
    requires
        n <= m,
        parse_tokens(registry, tokens, n) is Err,
    ensures
        parse_tokens(registry, tokens, m) == parse_tokens(registry, tokens, n),
    decreases m,
{
    if n < m {
        lemma_parse_tokens_stops(registry, tokens, n, (m - 1) as nat);
    }
}

/// A prototype that was found is of the kind that was asked for.
pub proof fn lemma_prototype(registry: Seq<ElemView>, kind: Seq<char>)
    ensures
        prototype(registry, kind) matches Some(p) ==> p.kind() == kind,
    decreases registry.len(),
{
    if registry.len() > 0 && registry[0].kind() != kind {
        lemma_prototype(registry.drop_first(), kind);
    }
}

/// The names of the four kinds differ, and none holds a bracket.
pub proof fn lemma_kinds(a: ElemView, b: ElemView)
    ensures
        a.kind() == b.kind() ==> forall|s: Seq<char>| a.parsed(s) == b.parsed(s),
        first_index(a.kind() + seq!['('] + b.fields() + seq![')'], '(') == a.kind().len(),
{
    reveal_strlit("pen");
    reveal_strlit("line");
    reveal_strlit("rect");
    reveal_strlit("text");
    let k = a.kind();
    let t = k + seq!['('] + b.fields() + seq![')'];
    assert(k.len() >= 3);
    assert(k[0] != b.kind()[0] || k[1] != b.kind()[1] || k.len() != b.kind().len() ==> k
        != b.kind());
    assert forall|j: int| 0 <= j < k.len() implies t[j] != '(' by {
        assert(t[j] == k[j]);
    }
    lemma_first_index(t, '(', k.len() as int);
}

/// The token of a well-formed shape whose kind is registered stands for that
/// shape, in the style of a new one.
pub proof fn lemma_token_read_back(registry: Seq<ElemView>, e: ElemView)
    requires
        e.wf(),
        prototype(registry, e.kind()) is Some,
    ensures
        parse_token(registry, token(e)) == Ok::<ElemView, TokenError>(e.plain()),
{
    let t = token(e);
    let k = e.kind();
    lemma_kinds(e, e);
    lemma_prototype(registry, k);
    let p = prototype(registry, k).unwrap();
    lemma_kinds(p, e);
    lemma_fields_read_back(e);
    assert(t.subrange(0, k.len() as int) =~= k);
    assert(t.subrange(k.len() as int + 1, t.len() - 1) =~= e.fields());
    assert(t.last() == ')');
}

/// Export and import undo each other on the tokens: the tokens of a list
/// of well-formed shapes, each of a registered kind, stand for these very
/// shapes in the same order, each with its geometry and its label, whatever
/// the label holds, and in the style of a new shape.
pub proof fn law_tokens_read_back(registry: Seq<ElemView>, elems: Seq<ElemView>)
    requires
        forall|i: int| 0 <= i < elems.len() ==> (#[trigger] elems[i]).wf(),
        forall|i: int|
            0 <= i < elems.len() ==> prototype(registry, (#[trigger] elems[i]).kind()) is Some,
    ensures
        parse_tokens(registry, tokens_of(elems), elems.len()) == Ok::<Seq<ElemView>, ImportError>(
            plain_all(elems),
        ),
{
    lemma_tokens_prefix(registry, elems, elems.len());
    assert(plain_all(elems).subrange(0, elems.len() as int) =~= plain_all(elems));
}

/// The first `n` tokens of a list of shapes stand for its first `n` shapes.
pub proof fn lemma_tokens_prefix(registry: Seq<ElemView>, elems: Seq<ElemView>, n: nat)
    requires
        n <= elems.len(),
        forall|i: int| 0 <= i < elems.len() ==> (#[trigger] elems[i]).wf(),
        forall|i: int|
            0 <= i < elems.len() ==> prototype(registry, (#[trigger] elems[i]).kind()) is Some,
    ensures
        parse_tokens(registry, tokens_of(elems), n) == Ok::<Seq<ElemView>, ImportError>(
            plain_all(elems).subrange(0, n as int),
        ),
    decreases n,
{
    if n == 0 {
        assert(plain_all(elems).subrange(0, 0) =~= Seq::<ElemView>::empty());
    } else {
        lemma_tokens_prefix(registry, elems, (n - 1) as nat);
        lemma_token_read_back(registry, elems[n - 1]);
        assert(plain_all(elems).subrange(0, n - 1).push(elems[n - 1].plain()) =~= plain_all(
            elems,
        ).subrange(0, n as int));
    }
}

} // verus!
