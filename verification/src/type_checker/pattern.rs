//! Match-arm patterns, and the views of them that exhaustiveness checking
//! passes around.

use vstd::prelude::*;

verus! {

/// The part of an expression embedded in a pattern that exhaustiveness
/// checking looks at.
#[derive(Debug)]
pub enum PatternLiteral {
    /// A variable that the pattern binds.
    Identifier(String),
    /// A call such as `some(x)` or `ok(v)`: the rendered name of the call and
    /// its argument expressions.
    Call(String, Vec<PatternLiteral>),
    /// Any other expression (a number, a string, ...).
    Other,
}

/// The pattern of a match arm.
#[derive(Debug)]
pub enum ArmPattern {
    WildCard,
    As(String, Box<ArmPattern>),
    Constructor(String, Vec<ArmPattern>),
    TupleConstructor(Vec<ArmPattern>),
    RecordConstructor(Vec<(String, ArmPattern)>),
    ListConstructor(Vec<ArmPattern>),
    Literal(PatternLiteral),
}

/// A reference to a pattern: either a whole pattern, or an argument
/// expression of a call written in a pattern (such as `x` in `some(x)`).
#[derive(Debug, Clone, Copy)]
pub enum PatternView<'a> {
    Node(&'a ArmPattern),
    ArgLiteral(&'a PatternLiteral),
}

/// What a `PatternView` refers to.
pub enum PView {
    Node(ArmPattern),
    Arg(PatternLiteral),
}

impl<'a> View for PatternView<'a> {
    type V = PView;

    open spec fn view(&self) -> PView {
        match *self {
            PatternView::Node(p) => PView::Node(*p),
            PatternView::ArgLiteral(l) => PView::Arg(*l),
        }
    }
}

/// The views of a sequence of pattern references.
pub open spec fn pviews<'a>(s: Seq<PatternView<'a>>) -> Seq<PView> {
    s.map_values(|v: PatternView<'a>| v@)
}

/// The call a literal makes, if it is a call: its name and its argument expressions.
pub open spec fn literal_constructor(l: PatternLiteral) -> Option<(Seq<char>, Seq<PView>)> {
    match l {
        PatternLiteral::Call(name, args) => Some(
            (name@, args@.map_values(|a: PatternLiteral| PView::Arg(a))),
        ),
        _ => None,
    }
}

/// The constructor a pattern names, looking through `as` bindings: its name
/// and its argument patterns.
pub open spec fn pattern_constructor(p: ArmPattern) -> Option<(Seq<char>, Seq<PView>)>
    decreases p,
{
    match p {
        ArmPattern::As(_, inner) => pattern_constructor(*inner),
        ArmPattern::Constructor(name, args) => Some(
            (name@, args@.map_values(|a: ArmPattern| PView::Node(a))),
        ),
        ArmPattern::Literal(l) => literal_constructor(l),
        _ => None,
    }
}

/// The constructor a view names, if any.
pub open spec fn constructor_of(v: PView) -> Option<(Seq<char>, Seq<PView>)> {
    match v {
        PView::Node(p) => pattern_constructor(p),
        PView::Arg(l) => literal_constructor(l),
    }
}

/// The catch-all a pattern amounts to, looking through `as` bindings: the
/// wildcard or the identifier that matches anything.
pub open spec fn pattern_catch_all(p: ArmPattern) -> Option<PView>
    decreases p,
{
    match p {
        ArmPattern::WildCard => Some(PView::Node(p)),
        ArmPattern::As(_, inner) => pattern_catch_all(*inner),
        ArmPattern::Literal(PatternLiteral::Identifier(_)) => Some(PView::Node(p)),
        _ => None,
    }
}

/// The catch-all a view amounts to, if any.
pub open spec fn catch_all_of(v: PView) -> Option<PView> {
    match v {
        PView::Node(p) => pattern_catch_all(p),
        PView::Arg(PatternLiteral::Identifier(_)) => Some(v),
        PView::Arg(_) => None,
    }
}

/// A view that is itself a wildcard or an identifier (without `as`).
pub open spec fn is_direct_catch_all(v: PView) -> bool {
    ||| v matches PView::Node(ArmPattern::WildCard)
    ||| v matches PView::Node(ArmPattern::Literal(PatternLiteral::Identifier(_)))
    ||| v matches PView::Arg(PatternLiteral::Identifier(_))
}

/// How one pattern takes part in the check.
pub enum Classified<'a> {
    /// It names a constructor; these are the views of its arguments.
    Constructor(&'a String, Vec<PatternView<'a>>),
    /// It matches anything.
    CatchAll(PatternView<'a>),
    /// Neither (tuples, records, lists, other literals).
    Ignored,
}

/// Views of the argument patterns of a constructor pattern.
fn node_views<'a>(args: &'a Vec<ArmPattern>) -> (r: Vec<PatternView<'a>>)
    ensures
        pviews(r@) == args@.map_values(|a: ArmPattern| PView::Node(a)),
{
    let mut r: Vec<PatternView<'a>> = Vec::new();
    let mut i: usize = 0;
    while i < args.len()
        invariant
            i <= args@.len(),
            r@.len() == i,
            forall|j: int| 0 <= j < i ==> (#[trigger] r@[j])@ == PView::Node(args@[j]),
        decreases args@.len() - i,
    {
        r.push(PatternView::Node(&args[i]));
        i = i + 1;
    }
    assert(pviews(r@) =~= args@.map_values(|a: ArmPattern| PView::Node(a)));
    r
}

/// Views of the argument expressions of a call written in a pattern.
fn arg_views<'a>(args: &'a Vec<PatternLiteral>) -> (r: Vec<PatternView<'a>>)
    ensures
        pviews(r@) == args@.map_values(|a: PatternLiteral| PView::Arg(a)),
{
    let mut r: Vec<PatternView<'a>> = Vec::new();
    let mut i: usize = 0;
    while i < args.len()
        invariant
            i <= args@.len(),
            r@.len() == i,
            forall|j: int| 0 <= j < i ==> (#[trigger] r@[j])@ == PView::Arg(args@[j]),
        decreases args@.len() - i,
    {
        r.push(PatternView::ArgLiteral(&args[i]));
        i = i + 1;
    }
    assert(pviews(r@) =~= args@.map_values(|a: PatternLiteral| PView::Arg(a)));
    r
}

/// How a literal expression in a pattern takes part in the check; `as_node`
/// is the pattern that holds it, if it is a whole pattern.
fn classify_literal<'a>(l: &'a PatternLiteral, as_node: Option<&'a ArmPattern>) -> (c: Classified<'a>)
    requires
        as_node matches Some(p) ==> *p == ArmPattern::Literal(*l),
    ensures
        match c {
            Classified::Constructor(name, args) => literal_constructor(*l) == Some((name@, pviews(args@))),
            Classified::CatchAll(v) => literal_constructor(*l) is None && l is Identifier
                && v@ == match as_node {
                    Some(p) => PView::Node(*p),
                    None => PView::Arg(*l),
                },
            Classified::Ignored => literal_constructor(*l) is None && !(l is Identifier),
        },
{
    match l {
        PatternLiteral::Call(name, args) => Classified::Constructor(name, arg_views(args)),
        PatternLiteral::Identifier(_) => match as_node {
            Some(p) => Classified::CatchAll(PatternView::Node(p)),
            None => Classified::CatchAll(PatternView::ArgLiteral(l)),
        },
        PatternLiteral::Other => Classified::Ignored,
    }
}

/// How a whole pattern takes part in the check.
fn classify_node<'a>(p: &'a ArmPattern) -> (c: Classified<'a>)
    ensures
        match c {
            Classified::Constructor(name, args) => pattern_constructor(*p) == Some((name@, pviews(args@)))
                && pattern_catch_all(*p) is None,
            Classified::CatchAll(x) => pattern_constructor(*p) is None && pattern_catch_all(*p) == Some(x@),
            Classified::Ignored => pattern_constructor(*p) is None && pattern_catch_all(*p) is None,
        },
    decreases *p,
{
    match p {
        ArmPattern::WildCard => Classified::CatchAll(PatternView::Node(p)),
        ArmPattern::As(_, inner) => classify_node(&**inner),
        ArmPattern::Constructor(name, args) => Classified::Constructor(name, node_views(args)),
        ArmPattern::Literal(l) => classify_literal(l, Some(p)),
        _ => Classified::Ignored,
    }
}

/// How a pattern takes part in the exhaustiveness check.
pub fn classify<'a>(v: PatternView<'a>) -> (c: Classified<'a>)
    ensures
        match c {
            Classified::Constructor(name, args) => constructor_of(v@) == Some((name@, pviews(args@)))
                && catch_all_of(v@) is None,
            Classified::CatchAll(x) => constructor_of(v@) is None && catch_all_of(v@) == Some(x@),
            Classified::Ignored => constructor_of(v@) is None && catch_all_of(v@) is None,
        },
{
    match v {
        PatternView::ArgLiteral(l) => classify_literal(l, None),
        PatternView::Node(p) => classify_node(p),
    }
}

/// Whether a view is itself a wildcard or an identifier (without `as`).
pub fn is_direct_catch_all_view(v: PatternView) -> (r: bool)
    ensures
        r == is_direct_catch_all(v@),
{
    match v {
        PatternView::Node(ArmPattern::WildCard) => true,
        PatternView::Node(ArmPattern::Literal(PatternLiteral::Identifier(_))) => true,
        PatternView::ArgLiteral(PatternLiteral::Identifier(_)) => true,
        _ => false,
    }
}

/// Constructors nest at most `d` deep in the view: every argument of a
/// constructor is itself nested at most `d - 1` deep.
pub open spec fn view_bounded(v: PView, d: nat) -> bool
    decreases d,
{
    match constructor_of(v) {
        Some(c) => d > 0 && forall|i: int| 0 <= i < c.1.len() ==> view_bounded(#[trigger] c.1[i], (d - 1) as nat),
        None => true,
    }
}

/// A bound on nesting holds for every larger bound too.
pub proof fn lemma_view_bounded_mono(v: PView, d: nat, e: nat)
    requires
        view_bounded(v, d),
        d <= e,
    ensures
        view_bounded(v, e),
    decreases d,
{
    if let Some(c) = constructor_of(v) {
        assert forall|i: int| 0 <= i < c.1.len() implies view_bounded(#[trigger] c.1[i], (e - 1) as nat) by {
            lemma_view_bounded_mono(c.1[i], (d - 1) as nat, (e - 1) as nat);
        }
    }
}

/// Every pattern has a bound on the nesting of its constructors.
pub proof fn lemma_pattern_bounded(p: ArmPattern) -> (d: nat)
    ensures
        view_bounded(PView::Node(p), d),
    decreases p, 0nat,
{
    match p {
        ArmPattern::As(_, inner) => {
            let d = lemma_pattern_bounded(*inner);
            d
        },
        ArmPattern::Constructor(name, args) => {
            let d = lemma_patterns_bounded(args@, args@.len() as int);
            let c = pattern_constructor(p).unwrap();
            assert forall|i: int| 0 <= i < c.1.len() implies view_bounded(#[trigger] c.1[i], d) by {
                assert(c.1[i] == PView::Node(args@[i]));
            }
            d + 1
        },
        ArmPattern::Literal(l) => {
            let d = lemma_literal_bounded(l);
            d
        },
        _ => 0,
    }
}

/// The first `n` patterns of `args` share a bound on the nesting of their constructors.
pub proof fn lemma_patterns_bounded(args: Seq<ArmPattern>, n: int) -> (d: nat)
    requires
        0 <= n <= args.len(),
    ensures
        forall|i: int| 0 <= i < n ==> view_bounded(PView::Node(#[trigger] args[i]), d),
    decreases args, n,
{
    if n == 0 {
        0
    } else {
        let d1 = lemma_patterns_bounded(args, n - 1);
        let d2 = lemma_pattern_bounded(args[n - 1]);
        let d = if d1 < d2 { d2 } else { d1 };
        assert forall|i: int| 0 <= i < n implies view_bounded(PView::Node(#[trigger] args[i]), d) by {
            if i < n - 1 {
                lemma_view_bounded_mono(PView::Node(args[i]), d1, d);
            } else {
                lemma_view_bounded_mono(PView::Node(args[i]), d2, d);
            }
        }
        d
    }
}

/// Every literal has a bound on the nesting of its calls.
pub proof fn lemma_literal_bounded(l: PatternLiteral) -> (d: nat)
    ensures
        view_bounded(PView::Arg(l), d),
        view_bounded(PView::Node(ArmPattern::Literal(l)), d),
    decreases l, 0nat,
{
    match l {
        PatternLiteral::Call(name, args) => {
            let d = lemma_literals_bounded(args@, args@.len() as int);
            let c = literal_constructor(l).unwrap();
            assert forall|i: int| 0 <= i < c.1.len() implies view_bounded(#[trigger] c.1[i], d) by {
                assert(c.1[i] == PView::Arg(args@[i]));
            }
            d + 1
        },
        _ => 0,
    }
}

/// The first `n` literals of `args` share a bound on the nesting of their calls.
pub proof fn lemma_literals_bounded(args: Seq<PatternLiteral>, n: int) -> (d: nat)
    requires
        0 <= n <= args.len(),
    ensures
        forall|i: int| 0 <= i < n ==> view_bounded(PView::Arg(#[trigger] args[i]), d),
    decreases args, n,
{
    if n == 0 {
        0
    } else {
        let d1 = lemma_literals_bounded(args, n - 1);
        let d2 = lemma_literal_bounded(args[n - 1]);
        let d = if d1 < d2 { d2 } else { d1 };
        assert forall|i: int| 0 <= i < n implies view_bounded(PView::Arg(#[trigger] args[i]), d) by {
            if i < n - 1 {
                lemma_view_bounded_mono(PView::Arg(args[i]), d1, d);
            } else {
                lemma_view_bounded_mono(PView::Arg(args[i]), d2, d);
            }
        }
        d
    }
}

/// A catch-all names no constructor.
pub proof fn lemma_catch_all_unnamed(v: PView)
    ensures
        catch_all_of(v) matches Some(x) ==> constructor_of(x) is None,
{
    if let PView::Node(p) = v {
        lemma_pattern_catch_all_unnamed(p);
    }
}

proof fn lemma_pattern_catch_all_unnamed(p: ArmPattern)
    ensures
        pattern_catch_all(p) matches Some(x) ==> constructor_of(x) is None,
    decreases p,
{
    if let ArmPattern::As(_, inner) = p {
        lemma_pattern_catch_all_unnamed(*inner);
    }
}

} // verus!
