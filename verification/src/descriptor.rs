use vstd::prelude::*;
use vstd::slice::slice_subrange;
use crate::method::Method;
use crate::method::spec_method_of;
use crate::token::{lex, spec_lex, toks_model, Token, TokenModel};

verus! {

/// Why a route specification or its binding to a handler was rejected.
#[derive(Clone, Copy, Debug, PartialEq, Eq, Structural)]
pub enum DescriptorError {
    /// The specification text does not follow the grammar.
    Syntax,
    /// The handler declares fewer parameters than the descriptor names.
    ArityMismatch,
    /// The handler declares a parameter the descriptor does not name, the
    /// same name twice, or a wildcard parameter that is not a string.
    UnknownParameter,
    /// The descriptor names a parameter the handler does not declare.
    MissingParameter,
}

/// One path segment of a route specification.
#[derive(Clone, Debug, PartialEq, Eq)]
pub enum Segment {
    /// A quoted literal that the request component must equal.
    Lit(String),
    /// A named parameter bound to one request component.
    Param(String),
    /// A wildcard bound to the whole remaining request path; only valid
    /// as the last segment.
    Wild(String),
}

/// Mathematical form of a [`Segment`].
pub enum SegmentModel {
    /// A literal segment.
    Lit(Seq<char>),
    /// A named parameter.
    Param(Seq<char>),
    /// A trailing wildcard.
    Wild(Seq<char>),
}

impl Segment {
    /// The mathematical segment this holds.
    pub open spec fn model(self) -> SegmentModel {
        match self {
            Segment::Lit(s) => SegmentModel::Lit(s@),
            Segment::Param(s) => SegmentModel::Param(s@),
            Segment::Wild(s) => SegmentModel::Wild(s@),
        }
    }
}

/// The models of a sequence of segments.
pub open spec fn segs_model(segs: Seq<Segment>) -> Seq<SegmentModel> {
    segs.map_values(|s: Segment| s.model())
}

/// A wildcard may only stand as the last segment.
pub open spec fn segs_wf(segs: Seq<SegmentModel>) -> bool {
    forall|i: int| 0 <= i < segs.len() - 1 ==> !(#[trigger] segs[i] is Wild)
}

/// Mathematical form of a [`Descriptor`].
pub struct DescriptorModel {
    /// The methods the route accepts; empty means any.
    pub methods: Seq<Method>,
    /// The path segments, in order.
    pub segments: Seq<SegmentModel>,
}

/// A parsed route specification: the methods a route accepts and the path
/// segments it matches, built once and then only read.
#[derive(Clone, Debug, PartialEq, Eq)]
pub struct Descriptor {
    /// The accepted methods; empty means the route accepts any method.
    pub methods: Vec<Method>,
    /// The path segments, in order.
    pub segments: Vec<Segment>,
}

impl Descriptor {
    /// The mathematical descriptor this holds.
    pub open spec fn model(self) -> DescriptorModel {
        DescriptorModel { methods: self.methods@, segments: segs_model(self.segments@) }
    }

    /// A wildcard segment, if present, stands last.
    pub open spec fn wf(self) -> bool {
        segs_wf(self.model().segments)
    }

    /// A descriptor from parts.
    pub fn new(methods: Vec<Method>, segments: Vec<Segment>) -> (r: Descriptor)
        ensures
            r.methods == methods,
            r.segments == segments,
    {
        Descriptor { methods, segments }
    }

    /// The descriptor that matches the root path on any method.
    pub fn empty() -> (r: Descriptor)
        ensures
            r.model().methods == Seq::<Method>::empty(),
            r.model().segments == Seq::<SegmentModel>::empty(),
    {
        let r = Descriptor { methods: Vec::new(), segments: Vec::new() };
        proof {
            assert(segs_model(r.segments@) =~= Seq::<SegmentModel>::empty());
        }
        r
    }

    /// A descriptor that matches the root path on the given methods only.
    pub fn only_methods(methods: Vec<Method>) -> (r: Descriptor)
        ensures
            r.model().methods == methods@,
            r.model().segments == Seq::<SegmentModel>::empty(),
    {
        let r = Descriptor { methods, segments: Vec::new() };
        proof {
            assert(segs_model(r.segments@) =~= Seq::<SegmentModel>::empty());
        }
        r
    }

    /// A descriptor that matches the given segments on any method.
    pub fn only_segments(segments: Vec<Segment>) -> (r: Descriptor)
        ensures
            r.model().methods == Seq::<Method>::empty(),
            r.model().segments == segs_model(segments@),
    {
        Descriptor { segments, methods: Vec::new() }
    }

    /// The names of the path parameters, in segment order.
    pub fn param_names(&self) -> (r: Vec<String>)
        ensures
            names_model(r@) == spec_param_names(self.model().segments),
    {
        let n = self.segments.len();
        let mut out: Vec<String> = Vec::new();
        let mut i: usize = 0;
        while i < n
            invariant
                0 <= i <= n,
                n == self.segments@.len(),
                names_model(out@) == spec_param_names(segs_model(self.segments@).take(i as int)),
            decreases n - i,
        {
            let ghost pre = segs_model(self.segments@).take(i as int);
            let ghost post = segs_model(self.segments@).take(i + 1);
            proof {
                assert(post.drop_last() =~= pre);
                assert(post.last() == self.segments@[i as int].model());
                lemma_param_names_snoc(post);
            }
            match &self.segments[i] {
                Segment::Lit(_) => {},
                Segment::Param(name) => {
                    let ghost old_out = out@;
                    out.push(name.clone());
                    proof {
                        assert(names_model(out@) =~= names_model(old_out).push(name@));
                    }
                },
                Segment::Wild(name) => {
                    let ghost old_out = out@;
                    out.push(name.clone());
                    proof {
                        assert(names_model(out@) =~= names_model(old_out).push(name@));
                    }
                },
            }
            i += 1;
        }
        proof {
            assert(segs_model(self.segments@).take(n as int) =~= segs_model(self.segments@));
        }
        out
    }

    /// How many path parameters the descriptor names.
    pub fn num_params(&self) -> (r: usize)
        ensures
            r == spec_param_names(self.model().segments).len(),
    {
        self.param_names().len()
    }
}

/// The models of a sequence of parameter names.
pub open spec fn names_model(names: Seq<String>) -> Seq<Seq<char>> {
    names.map_values(|s: String| s@)
}

/// The names of the parameters among `segs`, in order: one for each
/// `Param` or `Wild` segment.
pub open spec fn spec_param_names(segs: Seq<SegmentModel>) -> Seq<Seq<char>>
    decreases segs.len(),
{
    if segs.len() == 0 {
        Seq::empty()
    } else {
        let rest = spec_param_names(segs.drop_last());
        match segs.last() {
            SegmentModel::Lit(_) => rest,
            SegmentModel::Param(n) => rest.push(n),
            SegmentModel::Wild(n) => rest.push(n),
        }
    }
}

proof fn lemma_param_names_snoc(segs: Seq<SegmentModel>)
    requires
        segs.len() > 0,
    ensures
        spec_param_names(segs) == (match segs.last() {
            SegmentModel::Lit(_) => spec_param_names(segs.drop_last()),
            SegmentModel::Param(n) => spec_param_names(segs.drop_last()).push(n),
            SegmentModel::Wild(n) => spec_param_names(segs.drop_last()).push(n),
        }),
{
}

/// Parse one segment and hand the rest of the tokens on: the segments of
/// a specification after the first, or nothing on a grammar violation. A
/// wildcard followed by anything is refused.
pub open spec fn spec_segments_rest(seg: SegmentModel, rest: Seq<TokenModel>) -> Option<
    Seq<SegmentModel>,
>
    decreases rest.len(), 0int,
{
    if rest.len() == 0 {
        Some(seq![seg])
    } else if rest[0] is Slash {
        if seg is Wild {
            None
        } else {
            match spec_parse_segments(rest.skip(1)) {
                None => None,
                Some(segs) => Some(seq![seg] + segs),
            }
        }
    } else {
        None
    }
}

/// The segments that `toks` spell: `segment ('/' segment)*`, a segment
/// being a quoted literal, an identifier, or an identifier followed by
/// `*`; the whole token sequence must be consumed.
pub open spec fn spec_parse_segments(toks: Seq<TokenModel>) -> Option<Seq<SegmentModel>>
    decreases toks.len(), 1int,
{
    if toks.len() == 0 {
        None
    } else {
        match toks[0] {
            TokenModel::Lit(s) => spec_segments_rest(SegmentModel::Lit(s), toks.skip(1)),
            TokenModel::Ident(n) => if toks.len() >= 2 && toks[1] is Star {
                spec_segments_rest(SegmentModel::Wild(n), toks.skip(2))
            } else {
                spec_segments_rest(SegmentModel::Param(n), toks.skip(1))
            },
            _ => None,
        }
    }
}

/// The methods that a prefix of `toks` spells (`ident (',' ident)*`, each
/// a known method name) and the tokens that follow them.
pub open spec fn spec_parse_methods(toks: Seq<TokenModel>) -> Option<
    (Seq<Method>, Seq<TokenModel>),
>
    decreases toks.len(),
{
    if toks.len() == 0 {
        None
    } else {
        match toks[0] {
            TokenModel::Ident(n) => match spec_method_of(n) {
                None => None,
                Some(m) => if toks.len() >= 2 && toks[1] is Comma {
                    match spec_parse_methods(toks.skip(2)) {
                        None => None,
                        Some((ms, rest)) => Some((seq![m] + ms, rest)),
                    }
                } else {
                    Some((seq![m], toks.skip(1)))
                },
            },
            _ => None,
        }
    }
}

/// The descriptor that `toks` spell: nothing at all, methods alone,
/// segments alone, or methods `:` segments. Segments stand alone exactly
/// when the tokens open with a literal or their second token is `/`.
pub open spec fn spec_parse_spec(toks: Seq<TokenModel>) -> Option<DescriptorModel> {
    if toks.len() == 0 {
        Some(DescriptorModel { methods: Seq::empty(), segments: Seq::empty() })
    } else if toks[0] is Lit || (toks.len() >= 2 && toks[1] is Slash) {
        match spec_parse_segments(toks) {
            None => None,
            Some(segs) => Some(DescriptorModel { methods: Seq::empty(), segments: segs }),
        }
    } else {
        match spec_parse_methods(toks) {
            None => None,
            Some((ms, rest)) => {
                if rest.len() == 0 {
                    Some(DescriptorModel { methods: ms, segments: Seq::empty() })
                } else if rest[0] is Colon {
                    match spec_parse_segments(rest.skip(1)) {
                        None => None,
                        Some(segs) => Some(DescriptorModel { methods: ms, segments: segs }),
                    }
                } else {
                    None
                }
            },
        }
    }
}

/// The descriptor that the text `s` spells under the route-specification
/// grammar, or nothing when `s` breaks it.
pub open spec fn spec_parse_route(s: Seq<char>) -> Option<DescriptorModel> {
    match spec_lex(s) {
        None => None,
        Some(toks) => spec_parse_spec(toks),
    }
}

proof fn lemma_toks_model_skip(ts: Seq<Token>, k: int)
    requires
        0 <= k <= ts.len(),
    ensures
        toks_model(ts.skip(k)) =~= toks_model(ts).skip(k),
{
}

proof fn lemma_parse_segments_wf(toks: Seq<TokenModel>)
    ensures
        spec_parse_segments(toks) matches Some(segs) ==> segs_wf(segs) && segs.len() > 0,
    decreases toks.len(), 1int,
{
    if toks.len() > 0 {
        match toks[0] {
            TokenModel::Lit(s) => {
                lemma_segments_rest_wf(SegmentModel::Lit(s), toks.skip(1));
            },
            TokenModel::Ident(n) => {
                if toks.len() >= 2 && toks[1] is Star {
                    lemma_segments_rest_wf(SegmentModel::Wild(n), toks.skip(2));
                } else {
                    lemma_segments_rest_wf(SegmentModel::Param(n), toks.skip(1));
                }
            },
            _ => {},
        }
    }
}

proof fn lemma_segments_rest_wf(seg: SegmentModel, rest: Seq<TokenModel>)
    ensures
        spec_segments_rest(seg, rest) matches Some(segs) ==> segs_wf(segs) && segs.len() > 0,
    decreases rest.len(), 0int,
{
    if rest.len() > 0 && rest[0] is Slash && !(seg is Wild) {
        lemma_parse_segments_wf(rest.skip(1));
        match spec_parse_segments(rest.skip(1)) {
            Some(segs) => {
                assert forall|i: int|
                    0 <= i < (seq![seg] + segs).len() - 1 implies !(#[trigger] (seq![seg]
                    + segs)[i] is Wild) by {
                    if i > 0 {
                        assert((seq![seg] + segs)[i] == segs[i - 1]);
                    }
                }
            },
            None => {},
        }
    }
}

fn parse_methods_toks<'a>(toks: &'a [Token]) -> (r: Option<(Vec<Method>, &'a [Token])>)
    ensures
        match r {
            Some(p) => spec_parse_methods(toks_model(toks@)) == Some((p.0@, toks_model(p.1@))),
            None => spec_parse_methods(toks_model(toks@)) is None,
        },
    decreases toks@.len(),
{
    let n = toks.len();
    if n == 0 {
        return None;
    }
    match vstd::slice::slice_index_get(toks, 0) {
        Token::Ident(name) => {
            match Method::from_name(name.as_str()) {
                None => None,
                Some(m) => {
                    let comma = n >= 2 && matches!(
                        vstd::slice::slice_index_get(toks, 1),
                        Token::Comma,
                    );
                    if comma {
                        proof {
                            lemma_toks_model_skip(toks@, 2);
                        }
                        match parse_methods_toks(slice_subrange(toks, 2, n)) {
                            None => None,
                            Some((ms, rest)) => {
                                let mut out: Vec<Method> = Vec::new();
                                out.push(m);
                                let ghost ms0 = ms@;
                                let mut ms = ms;
                                out.append(&mut ms);
                                proof {
                                    assert(out@ =~= seq![m] + ms0);
                                }
                                Some((out, rest))
                            },
                        }
                    } else {
                        proof {
                            lemma_toks_model_skip(toks@, 1);
                        }
                        let mut out: Vec<Method> = Vec::new();
                        out.push(m);
                        proof {
                            assert(out@ =~= seq![m]);
                        }
                        Some((out, slice_subrange(toks, 1, n)))
                    }
                },
            }
        },
        _ => None,
    }
}

fn parse_segments_toks(toks: &[Token]) -> (r: Option<Vec<Segment>>)
    ensures
        match r {
            Some(segs) => spec_parse_segments(toks_model(toks@)) == Some(segs_model(segs@)),
            None => spec_parse_segments(toks_model(toks@)) is None,
        },
    decreases toks@.len(),
{
    let n = toks.len();
    if n == 0 {
        return None;
    }
    let (seg, k): (Segment, usize) = match vstd::slice::slice_index_get(toks, 0) {
        Token::Lit(s) => (Segment::Lit(s.clone()), 1),
        Token::Ident(name) => {
            if n >= 2 && matches!(vstd::slice::slice_index_get(toks, 1), Token::Star) {
                (Segment::Wild(name.clone()), 2)
            } else {
                (Segment::Param(name.clone()), 1)
            }
        },
        _ => {
            return None;
        },
    };
    proof {
        lemma_toks_model_skip(toks@, k as int);
        assert(spec_parse_segments(toks_model(toks@)) == spec_segments_rest(
            seg.model(),
            toks_model(toks@).skip(k as int),
        ));
    }
    let rest = slice_subrange(toks, k, n);
    let m = rest.len();
    if m == 0 {
        let mut out: Vec<Segment> = Vec::new();
        out.push(seg);
        proof {
            assert(segs_model(out@) =~= seq![out@[0].model()]);
        }
        Some(out)
    } else if matches!(vstd::slice::slice_index_get(rest, 0), Token::Slash) {
        if matches!(seg, Segment::Wild(_)) {
            None
        } else {
            proof {
                lemma_toks_model_skip(rest@, 1);
            }
            match parse_segments_toks(slice_subrange(rest, 1, m)) {
                None => None,
                Some(segs) => {
                    let mut out: Vec<Segment> = Vec::new();
                    out.push(seg);
                    let ghost segs0 = segs@;
                    let mut segs = segs;
                    out.append(&mut segs);
                    proof {
                        assert(segs_model(out@) =~= seq![out@[0].model()] + segs_model(segs0));
                    }
                    Some(out)
                },
            }
        }
    } else {
        None
    }
}

fn parse_tokens(toks: &[Token]) -> (r: Option<(Vec<Method>, Vec<Segment>)>)
    ensures
        match r {
            Some(p) => spec_parse_spec(toks_model(toks@)) == Some(
                DescriptorModel { methods: p.0@, segments: segs_model(p.1@) },
            ),
            None => spec_parse_spec(toks_model(toks@)) is None,
        },
{
    let n = toks.len();
    if n == 0 {
        let r = (Vec::<Method>::new(), Vec::<Segment>::new());
        proof {
            assert(segs_model(r.1@) =~= Seq::<SegmentModel>::empty());
        }
        return Some(r);
    }
    let seg_first = matches!(vstd::slice::slice_index_get(toks, 0), Token::Lit(_)) || (n >= 2
        && matches!(vstd::slice::slice_index_get(toks, 1), Token::Slash));
    if seg_first {
        match parse_segments_toks(toks) {
            None => None,
            Some(segs) => Some((Vec::new(), segs)),
        }
    } else {
        match parse_methods_toks(toks) {
            None => None,
            Some((ms, rest)) => {
                let m = rest.len();
                if m == 0 {
                    let r = (ms, Vec::<Segment>::new());
                    proof {
                        assert(segs_model(r.1@) =~= Seq::<SegmentModel>::empty());
                    }
                    Some(r)
                } else if matches!(vstd::slice::slice_index_get(rest, 0), Token::Colon) {
                    proof {
                        lemma_toks_model_skip(rest@, 1);
                    }
                    match parse_segments_toks(slice_subrange(rest, 1, m)) {
                        None => None,
                        Some(segs) => Some((ms, segs)),
                    }
                } else {
                    None
                }
            },
        }
    }
}

impl Descriptor {
    /// Parse a route specification, exactly as [`spec_parse_route`]
    /// describes; a parsed descriptor keeps any wildcard last.
    pub fn parse(text: &str) -> (r: Result<Descriptor, DescriptorError>)
        ensures
            match r {
                Ok(d) => spec_parse_route(text@) == Some(d.model()) && d.wf(),
                Err(e) => spec_parse_route(text@) is None && e == DescriptorError::Syntax,
            },
    {
        match lex(text) {
            None => Err(DescriptorError::Syntax),
            Some(toks) => {
                match parse_tokens(toks.as_slice()) {
                    None => Err(DescriptorError::Syntax),
                    Some((methods, segments)) => {
                        proof {
                            lemma_parse_route_wf(text@);
                        }
                        Ok(Descriptor { methods, segments })
                    },
                }
            },
        }
    }
}

/// A parsed specification keeps any wildcard as its last segment.
pub proof fn lemma_parse_route_wf(s: Seq<char>)
    ensures
        spec_parse_route(s) matches Some(d) ==> segs_wf(d.segments),
{
    match spec_lex(s) {
        None => {},
        Some(toks) => {
            lemma_parse_spec_wf(toks);
        },
    }
}

proof fn lemma_parse_spec_wf(toks: Seq<TokenModel>)
    ensures
        spec_parse_spec(toks) matches Some(d) ==> segs_wf(d.segments),
{
    lemma_parse_segments_wf(toks);
    if toks.len() > 0 && !(toks[0] is Lit || (toks.len() >= 2 && toks[1] is Slash)) {
        match spec_parse_methods(toks) {
            None => {},
            Some((ms, rest)) => {
                if rest.len() > 0 && rest[0] is Colon {
                    lemma_parse_segments_wf(rest.skip(1));
                }
            },
        }
    }
}

impl Segment {
    /// Parse a specification that consists of exactly one segment.
    pub fn parse(text: &str) -> (r: Result<Segment, DescriptorError>)
        ensures
            match r {
                Ok(seg) => spec_parse_segments_of(text@) == Some(seq![seg.model()]),
                Err(e) => e == DescriptorError::Syntax && (match spec_parse_segments_of(text@) {
                    Some(segs) => segs.len() != 1,
                    None => true,
                }),
            },
    {
        match lex(text) {
            None => Err(DescriptorError::Syntax),
            Some(toks) => {
                match parse_segments_toks(toks.as_slice()) {
                    None => Err(DescriptorError::Syntax),
                    Some(segs) => {
                        if segs.len() == 1 {
                            let mut segs = segs;
                            match segs.pop() {
                                Some(seg) => {
                                    proof {
                                        assert(segs_model(segs@.push(seg)) =~= seq![seg.model()]);
                                    }
                                    Ok(seg)
                                },
                                None => Err(DescriptorError::Syntax),
                            }
                        } else {
                            Err(DescriptorError::Syntax)
                        }
                    },
                }
            },
        }
    }
}

/// The single sequence of segments that `s` spells, when the whole of `s`
/// is segments.
pub open spec fn spec_parse_segments_of(s: Seq<char>) -> Option<Seq<SegmentModel>> {
    match spec_lex(s) {
        None => None,
        Some(toks) => spec_parse_segments(toks),
    }
}

} // verus!
