//! Disparities: single, localized mismatches between a response and the
//! contract.
use vstd::prelude::*;

verus! {

/// Where in a response body a disparity sits: the property names and
/// `items` steps from the root.
#[derive(Debug)]
pub struct Location {
    pub pieces: Vec<String>,
}

impl View for Location {
    type V = Seq<Seq<char>>;

    open spec fn view(&self) -> Seq<Seq<char>> {
        self.pieces.deep_view()
    }
}

proof fn lemma_deep_push(a: Vec<String>, b: Vec<String>, x: String)
    requires
        b@ == a@.push(x),
    ensures
        b.deep_view() == a.deep_view().push(x@),
{
    assert(b.deep_view() =~= a.deep_view().push(x@));
}

/// The pieces of a location joined by `::`.
pub open spec fn joined(ps: Seq<Seq<char>>) -> Seq<char>
    decreases ps.len(),
{
    if ps.len() == 0 {
        Seq::empty()
    } else if ps.len() == 1 {
        ps[0]
    } else {
        joined(ps.drop_last()) + seq![':', ':'] + ps.last()
    }
}

impl Location {
    /// The root of the body.
    pub fn empty() -> (r: Self)
        ensures
            r@ == Seq::<Seq<char>>::empty(),
    {
        let r = Location { pieces: Vec::new() };
        proof {
            assert(r@ =~= Seq::<Seq<char>>::empty());
        }
        r
    }

    /// The location of the given pieces, in order.
    pub fn new(pieces: Vec<&str>) -> (r: Self)
        ensures
            r@ == pieces@.map_values(|p: &str| p@),
    {
        let mut out: Vec<String> = Vec::new();
        let mut i: usize = 0;
        while i < pieces.len()
            invariant
                i <= pieces.len(),
                out.deep_view() == pieces@.map_values(|p: &str| p@).subrange(0, i as int),
            decreases pieces.len() - i,
        {
            let ghost before = out;
            let s = String::from_str(pieces[i]);
            out.push(s);
            proof {
                lemma_deep_push(before, out, s);
                assert(out.deep_view() =~= pieces@.map_values(|p: &str| p@).subrange(0, i + 1));
            }
            i = i + 1;
        }
        proof {
            assert(pieces@.map_values(|p: &str| p@).subrange(0, i as int) =~= pieces@.map_values(|p: &str| p@));
        }
        Location { pieces: out }
    }

    /// A copy of the location.
    pub fn duplicate(&self) -> (r: Self)
        ensures
            r@ == self@,
    {
        let mut out: Vec<String> = Vec::new();
        let mut i: usize = 0;
        while i < self.pieces.len()
            invariant
                i <= self.pieces.len(),
                out.deep_view() == self@.subrange(0, i as int),
            decreases self.pieces.len() - i,
        {
            let ghost before = out;
            let s = self.pieces[i].clone();
            out.push(s);
            proof {
                lemma_deep_push(before, out, s);
                assert(out.deep_view() =~= self@.subrange(0, i + 1));
            }
            i = i + 1;
        }
        proof {
            assert(self@.subrange(0, i as int) =~= self@);
        }
        Location { pieces: out }
    }

    /// The location one step further down, at `piece`.
    pub fn add(&self, piece: &str) -> (r: Self)
        ensures
            r@ == self@.push(piece@),
    {
        let mut r = self.duplicate();
        let ghost before = r.pieces;
        let s = String::from_str(piece);
        r.pieces.push(s);
        proof {
            lemma_deep_push(before, r.pieces, s);
        }
        r
    }

    /// Whether this is the root.
    pub fn is_empty(&self) -> (r: bool)
        ensures
            r == (self@.len() == 0),
    {
        self.pieces.len() == 0
    }

    /// The location as text, its pieces joined by `::`.
    pub fn render(&self) -> (r: String)
        ensures
            r@ == joined(self@),
    {
        let mut out = String::new();
        let mut i: usize = 0;
        while i < self.pieces.len()
            invariant
                i <= self.pieces.len(),
                out@ == joined(self@.subrange(0, i as int)),
            decreases self.pieces.len() - i,
        {
            proof {
                assert(self@.subrange(0, i + 1).drop_last() =~= self@.subrange(0, i as int));
                assert(self@.subrange(0, i + 1).last() == self.pieces@[i as int]@);
                reveal_strlit("::");
            }
            if i > 0 {
                out.append("::");
            }
            out.append(self.pieces[i].as_str());
            proof {
                if i == 0 {
                    assert(out@ =~= joined(self@.subrange(0, i + 1)));
                } else {
                    assert(out@ =~= joined(self@.subrange(0, i + 1)));
                }
            }
            i = i + 1;
        }
        proof {
            assert(self@.subrange(0, i as int) =~= self@);
        }
        out
    }
}

/// The kind of a JSON value.
#[derive(Debug, Clone, Copy, PartialEq, Eq, Structural)]
pub enum JsonKind {
    Null,
    Bool,
    Number,
    Str,
    Array,
    Object,
}

/// The type a schema node declares.
#[derive(Debug, Clone, Copy, PartialEq, Eq, Structural)]
pub enum SchemaKind {
    Boolean,
    Integer,
    Number,
    Str,
    Array,
    Object,
}

/// A string format that responses are checked against.
#[derive(Debug, Clone, Copy, PartialEq, Eq, Structural)]
pub enum KnownFormat {
    Uuid,
    Date,
    DateTime,
}

/// What is wrong.
#[derive(Debug)]
pub enum DisparityKind {
    /// The service answered with another status code.
    StatusDisparity { expected: u16, found: u16 },
    /// The expected status code is not documented though the application defines it.
    UndocumentedCode(u16),
    /// The expected status code is documented without a schema though the application defines it.
    SchemaNotFound(u16),
    /// The body is no JSON though a schema was expected.
    JsonError,
    /// The content type is missing (`None`) or is not the expected one.
    IncorrectContentType(Option<String>),
    /// A value is of another kind than its schema declares.
    TypeMismatch { value: JsonKind, declared: SchemaKind },
    /// The response holds a property that its schema does not declare.
    UndocumentedProperty(String),
    /// A string does not follow the format its schema declares.
    FormatMismatch(KnownFormat),
    /// A string follows a known format that its schema does not declare.
    UndeclaredFormat(KnownFormat),
}

/// One mismatch and where it sits.
#[derive(Debug)]
pub struct Disparity {
    pub kind: DisparityKind,
    pub location: Location,
}

/// A disparity as its kind and its location.
pub type DisparityView = (DisparityKind, Seq<Seq<char>>);

impl View for Disparity {
    type V = DisparityView;

    open spec fn view(&self) -> DisparityView {
        (self.kind, self.location@)
    }
}

/// The disparities found in one response, in order.
#[derive(Debug)]
pub struct DisparityList {
    pub inner: Vec<Disparity>,
}

impl View for DisparityList {
    type V = Seq<DisparityView>;

    open spec fn view(&self) -> Seq<DisparityView> {
        self.inner@.map_values(|d: Disparity| d@)
    }
}

impl Disparity {
    /// A disparity of the given kind at the given location.
    pub fn new(kind: DisparityKind, location: Location) -> (r: Self)
        ensures
            r@ == (kind, location@),
    {
        Disparity { kind, location }
    }

    /// A list that holds this disparity alone.
    pub fn to_list(self) -> (r: DisparityList)
        ensures
            r@ == seq![self@],
    {
        let mut list = DisparityList::new();
        list.push(self);
        proof {
            assert(list@ =~= seq![self@]);
        }
        list
    }
}

impl DisparityList {
    /// An empty list.
    pub fn new() -> (r: Self)
        ensures
            r@ == Seq::<DisparityView>::empty(),
    {
        let r = DisparityList { inner: Vec::new() };
        proof {
            assert(r@ =~= Seq::<DisparityView>::empty());
        }
        r
    }

    /// Whether nothing was found.
    pub fn is_empty(&self) -> (r: bool)
        ensures
            r == (self@.len() == 0),
    {
        self.inner.len() == 0
    }

    /// Appends one disparity.
    pub fn push(&mut self, dis: Disparity)
        ensures
            final(self)@ == old(self)@.push(dis@),
    {
        self.inner.push(dis);
        proof {
            assert(final(self)@ =~= old(self)@.push(dis@));
        }
    }

    /// Appends the disparity if there is one, and tells whether there was.
    pub fn option_push(&mut self, dis: Option<Disparity>) -> (r: bool)
        ensures
            r == dis is Some,
            match dis {
                Some(d) => final(self)@ == old(self)@.push(d@),
                None => final(self)@ == old(self)@,
            },
    {
        match dis {
            Some(d) => {
                self.push(d);
                true
            },
            None => false,
        }
    }

    /// Appends every disparity of another list.
    pub fn merge(&mut self, other_list: DisparityList)
        ensures
            final(self)@ == old(self)@ + other_list@,
    {
        let mut other = other_list;
        let ghost ov = other@;
        self.inner.append(&mut other.inner);
        proof {
            assert(final(self)@ =~= old(self)@ + ov);
        }
    }
}

} // verus!
