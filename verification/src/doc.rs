//! The layout document: a tree of text fragments, line breaks, indentation
//! regions and fit-together groups. It is the intermediate form this crate
//! produces; a width-aware renderer turns it into final text.
use vstd::prelude::*;

verus! {

/// Abstract (specification-level) shape of a layout document.
pub enum LayoutDocV {
    /// A piece of text, emitted verbatim. The renderer's width accounting
    /// assumes it holds no line break; a multi-line comment carried here is
    /// still printed verbatim, only its width is measured as one line.
    Text(Seq<char>),
    /// A single space character.
    Space,
    /// An unconditional line break.
    HardLine,
    /// A conditional break resolved independently: a space if the line so far
    /// fits the width, otherwise a line break.
    SoftLine,
    /// A conditional break resolved together with its enclosing group: a space
    /// if the whole group fits the width, otherwise a line break.
    LineOrSpace,
    /// A line break that always yields an empty line, never indented.
    EmptyLine,
    /// A sequence of documents, one after another.
    List(Seq<LayoutDocV>),
    /// A sequence whose conditional breaks are resolved under one fit decision.
    Group(Seq<LayoutDocV>),
    /// A sequence indented by the given number of columns.
    Nest(nat, Seq<LayoutDocV>),
}

/// Executable layout document.
pub enum LayoutDoc {
    Text(String),
    Space,
    HardLine,
    SoftLine,
    LineOrSpace,
    EmptyLine,
    List(Vec<LayoutDoc>),
    Group(Vec<LayoutDoc>),
    Nest(usize, Vec<LayoutDoc>),
}

/// The views of a sequence of documents, element by element.
pub open spec fn docs_view(ds: Seq<LayoutDoc>) -> Seq<LayoutDocV>
    decreases ds, 0int,
{
    if ds.len() == 0 {
        Seq::empty()
    } else {
        seq![ds[0]@] + docs_view(ds.subrange(1, ds.len() as int))
    }
}

impl View for LayoutDoc {
    type V = LayoutDocV;

    open spec fn view(&self) -> LayoutDocV
        decreases self, 1int,
    {
        match self {
            LayoutDoc::Text(s) => LayoutDocV::Text(s@),
            LayoutDoc::Space => LayoutDocV::Space,
            LayoutDoc::HardLine => LayoutDocV::HardLine,
            LayoutDoc::SoftLine => LayoutDocV::SoftLine,
            LayoutDoc::LineOrSpace => LayoutDocV::LineOrSpace,
            LayoutDoc::EmptyLine => LayoutDocV::EmptyLine,
            LayoutDoc::List(ds) => LayoutDocV::List(docs_view(ds@)),
            LayoutDoc::Group(ds) => LayoutDocV::Group(docs_view(ds@)),
            LayoutDoc::Nest(n, ds) => LayoutDocV::Nest(*n as nat, docs_view(ds@)),
        }
    }
}

/// Appending one document extends the sequence of views by its view.
pub proof fn lemma_docs_view_push(ds: Seq<LayoutDoc>, d: LayoutDoc)
    ensures
        docs_view(ds.push(d)) == docs_view(ds).push(d@),
    decreases ds.len(),
{
    let p = ds.push(d);
    if ds.len() == 0 {
        assert(p.subrange(1, p.len() as int) =~= Seq::<LayoutDoc>::empty());
        assert(docs_view(Seq::<LayoutDoc>::empty()) =~= Seq::<LayoutDocV>::empty());
        assert(ds =~= Seq::<LayoutDoc>::empty());
        assert(docs_view(p) =~= docs_view(ds).push(d@));
    } else {
        let rest = ds.subrange(1, ds.len() as int);
        assert(p.subrange(1, p.len() as int) =~= rest.push(d));
        lemma_docs_view_push(rest, d);
        assert(docs_view(p) == seq![p[0]@] + docs_view(rest.push(d)));
        assert(docs_view(p) =~= docs_view(ds).push(d@));
    }
}

/// `docs_view` distributes over concatenation.
pub proof fn lemma_docs_view_concat(a: Seq<LayoutDoc>, b: Seq<LayoutDoc>)
    ensures
        docs_view(a + b) == docs_view(a) + docs_view(b),
    decreases a.len(),
{
    if a.len() == 0 {
        assert(a + b =~= b);
        assert(docs_view(a) =~= Seq::<LayoutDocV>::empty());
        assert(docs_view(a) + docs_view(b) =~= docs_view(b));
    } else {
        let rest = a.subrange(1, a.len() as int);
        lemma_docs_view_concat(rest, b);
        assert((a + b).subrange(1, (a + b).len() as int) =~= rest + b);
        assert((a + b)[0] == a[0]);
        assert(docs_view(a + b) == seq![a[0]@] + docs_view(rest + b));
        assert(docs_view(a + b) =~= docs_view(a) + docs_view(b));
    }
}

impl LayoutDoc {
    /// A copy with the same view.
    pub fn duplicate(&self) -> (r: LayoutDoc)
        ensures
            r@ == self@,
        decreases self,
    {
        match self {
            LayoutDoc::Text(s) => LayoutDoc::Text(s.clone()),
            LayoutDoc::Space => LayoutDoc::Space,
            LayoutDoc::HardLine => LayoutDoc::HardLine,
            LayoutDoc::SoftLine => LayoutDoc::SoftLine,
            LayoutDoc::LineOrSpace => LayoutDoc::LineOrSpace,
            LayoutDoc::EmptyLine => LayoutDoc::EmptyLine,
            LayoutDoc::List(ds) => LayoutDoc::List(duplicate_docs(ds)),
            LayoutDoc::Group(ds) => LayoutDoc::Group(duplicate_docs(ds)),
            LayoutDoc::Nest(n, ds) => LayoutDoc::Nest(*n, duplicate_docs(ds)),
        }
    }
}

/// Copies of all documents of a vector, with the same views.
fn duplicate_docs(ds: &Vec<LayoutDoc>) -> (r: Vec<LayoutDoc>)
    ensures
        docs_view(r@) == docs_view(ds@),
    decreases ds,
{
    let n = ds.len();
    let mut r: Vec<LayoutDoc> = Vec::new();
    let mut i: usize = 0;
    while i < n
        invariant
            n == ds@.len(),
            i <= n,
            docs_view(r@) == docs_view(ds@.take(i as int)),
        decreases n - i,
    {
        let d = ds[i].duplicate();
        proof {
            lemma_docs_view_push(r@, d);
            assert(ds@.take(i + 1) =~= ds@.take(i as int).push(ds@[i as int]));
            lemma_docs_view_push(ds@.take(i as int), ds@[i as int]);
        }
        r.push(d);
        i = i + 1;
    }
    proof {
        assert(ds@.take(n as int) =~= ds@);
    }
    r
}

/// Appends one document, extending the views by its view.
pub fn push_doc(v: &mut Vec<LayoutDoc>, d: LayoutDoc)
    ensures
        docs_view(final(v)@) == docs_view(old(v)@) + seq![d@],
{
    proof {
        lemma_docs_view_push(v@, d);
        assert(docs_view(v@).push(d@) =~= docs_view(v@) + seq![d@]);
    }
    v.push(d);
}

/// Moves all documents of `other` to the end of `v`.
pub fn append_docs(v: &mut Vec<LayoutDoc>, mut other: Vec<LayoutDoc>)
    ensures
        docs_view(final(v)@) == docs_view(old(v)@) + docs_view(other@),
{
    proof {
        lemma_docs_view_concat(v@, other@);
    }
    v.append(&mut other);
}

/// A text fragment from a borrowed string.
pub fn text_doc(s: &str) -> (r: LayoutDoc)
    ensures
        r@ == LayoutDocV::Text(s@),
{
    LayoutDoc::Text(s.to_owned())
}

} // verus!
