use vstd::prelude::*;
use vstd::string::*;
use crate::descriptor::{Descriptor, DescriptorError, DescriptorModel, SegmentModel, Segment,
    spec_param_names, names_model};
use crate::error::Error;
use crate::method::{method_in, Method};
use crate::strutil::{seg_head, seg_tail, split_segment, str_eq, skip_chars};
use crate::value::{parse_value, spec_parse_value, Kind, Value, ValueModel};

verus! {

/// A handler's declared path parameter: its name and its type.
#[derive(Clone, Debug, PartialEq, Eq)]
pub struct ParamSpec {
    /// The parameter's name, as the handler declares it.
    pub name: String,
    /// The parameter's type.
    pub kind: Kind,
}

/// Mathematical form of a [`ParamSpec`].
pub struct ParamModel {
    /// The parameter's name.
    pub name: Seq<char>,
    /// The parameter's type.
    pub kind: Kind,
}

impl ParamSpec {
    /// The mathematical parameter this holds.
    pub open spec fn model(self) -> ParamModel {
        ParamModel { name: self.name@, kind: self.kind }
    }
}

/// The models of a sequence of declared parameters.
pub open spec fn params_model(ps: Seq<ParamSpec>) -> Seq<ParamModel> {
    ps.map_values(|p: ParamSpec| p.model())
}

/// One segment of a compiled route: a descriptor segment with the type
/// that the handler declared for its parameter, if it has one.
#[derive(Clone, Debug, PartialEq, Eq)]
pub enum BoundSegment {
    /// A literal that the request component must equal.
    Lit(String),
    /// A named parameter, parsed under its declared type.
    Param(String, Kind),
    /// A trailing wildcard, bound to the remaining path as a string.
    Wild(String),
}

/// Mathematical form of a [`BoundSegment`].
pub enum BoundSegModel {
    /// A literal segment.
    Lit(Seq<char>),
    /// A typed named parameter.
    Param(Seq<char>, Kind),
    /// A trailing wildcard.
    Wild(Seq<char>),
}

impl BoundSegment {
    /// The mathematical segment this holds.
    pub open spec fn model(self) -> BoundSegModel {
        match self {
            BoundSegment::Lit(s) => BoundSegModel::Lit(s@),
            BoundSegment::Param(s, k) => BoundSegModel::Param(s@, k),
            BoundSegment::Wild(s) => BoundSegModel::Wild(s@),
        }
    }
}

/// The models of a sequence of bound segments.
pub open spec fn bound_segs_model(segs: Seq<BoundSegment>) -> Seq<BoundSegModel> {
    segs.map_values(|s: BoundSegment| s.model())
}

/// One path parameter bound by a successful match.
#[derive(Clone, Debug, PartialEq, Eq)]
pub struct Binding {
    /// The parameter's name.
    pub name: String,
    /// The value the match bound it to.
    pub value: Value,
}

/// Mathematical form of a [`Binding`].
pub struct BindingModel {
    /// The parameter's name.
    pub name: Seq<char>,
    /// The bound value.
    pub value: ValueModel,
}

impl Binding {
    /// The mathematical binding this holds.
    pub open spec fn model(self) -> BindingModel {
        BindingModel { name: self.name@, value: self.value.model() }
    }
}

/// The typed parameter bundle that a successful match produces: one
/// binding per named or wildcard segment, in segment order. Built fresh
/// per match and only read afterwards.
#[derive(Clone, Debug, PartialEq, Eq)]
pub struct Extracted {
    /// The bindings, in segment order.
    pub bindings: Vec<Binding>,
}

/// Mathematical form of an [`Extracted`] bundle.
pub open spec fn bindings_model(bs: Seq<Binding>) -> Seq<BindingModel> {
    bs.map_values(|b: Binding| b.model())
}

impl Extracted {
    /// The mathematical bundle this holds.
    pub open spec fn model(self) -> Seq<BindingModel> {
        bindings_model(self.bindings@)
    }

    /// The first value bound under `name`, if any.
    pub open spec fn spec_get(self, name: Seq<char>) -> Option<ValueModel> {
        spec_lookup(self.model(), name)
    }

    /// Look the first value bound under `name` up.
    pub fn get(&self, name: &str) -> (r: Option<&Value>)
        ensures
            match r {
                Some(v) => self.spec_get(name@) == Some(v.model()),
                None => self.spec_get(name@) is None,
            },
    {
        let n = self.bindings.len();
        let mut i: usize = 0;
        while i < n
            invariant
                0 <= i <= n,
                n == self.bindings@.len(),
                forall|j: int| 0 <= j < i ==> self.model()[j].name != name@,
            decreases n - i,
        {
            if str_eq(self.bindings[i].name.as_str(), name) {
                proof {
                    lemma_lookup_at(self.model(), name@, i as int);
                }
                return Some(&self.bindings[i].value);
            }
            i += 1;
        }
        proof {
            lemma_lookup_none(self.model(), name@);
        }
        None
    }
}

/// The first value among `bs` bound under `name`.
pub open spec fn spec_lookup(bs: Seq<BindingModel>, name: Seq<char>) -> Option<ValueModel>
    decreases bs.len(),
{
    if bs.len() == 0 {
        None
    } else if bs[0].name == name {
        Some(bs[0].value)
    } else {
        spec_lookup(bs.skip(1), name)
    }
}

proof fn lemma_lookup_at(bs: Seq<BindingModel>, name: Seq<char>, i: int)
    requires
        0 <= i < bs.len(),
        forall|j: int| 0 <= j < i ==> bs[j].name != name,
        bs[i].name == name,
    ensures
        spec_lookup(bs, name) == Some(bs[i].value),
    decreases bs.len(),
{
    if i > 0 {
        lemma_lookup_at(bs.skip(1), name, i - 1);
    }
}

proof fn lemma_lookup_none(bs: Seq<BindingModel>, name: Seq<char>)
    requires
        forall|j: int| 0 <= j < bs.len() ==> bs[j].name != name,
    ensures
        spec_lookup(bs, name) is None,
    decreases bs.len(),
{
    if bs.len() > 0 {
        lemma_lookup_none(bs.skip(1), name);
    }
}

/// A compiled route: a descriptor cross-validated against a handler's
/// declared parameters, ready to extract typed values from a request.
#[derive(Clone, Debug, PartialEq, Eq)]
pub struct Extractor {
    /// The methods the route accepts; empty means any.
    pub methods: Vec<Method>,
    /// The typed segments, in order.
    pub segments: Vec<BoundSegment>,
}

/// Mathematical form of an [`Extractor`].
pub struct ExtractorModel {
    /// The accepted methods.
    pub methods: Seq<Method>,
    /// The typed segments.
    pub segments: Seq<BoundSegModel>,
}

impl Extractor {
    /// The mathematical extractor this holds.
    pub open spec fn model(self) -> ExtractorModel {
        ExtractorModel { methods: self.methods@, segments: bound_segs_model(self.segments@) }
    }
}

/// Match `segs` against `path` (already stripped of its leading `/`),
/// consuming one `/`-separated component per segment: a literal must
/// equal its component, a named parameter must parse under its type, and
/// a wildcard takes the whole remainder. The match succeeds only when
/// nothing of the path remains.
pub open spec fn spec_match_segments(segs: Seq<BoundSegModel>, path: Seq<char>) -> Option<
    Seq<BindingModel>,
>
    decreases segs.len(),
{
    if segs.len() == 0 {
        if path.len() == 0 {
            Some(Seq::empty())
        } else {
            None
        }
    } else {
        match segs[0] {
            BoundSegModel::Lit(l) => {
                if seg_head(path) == l {
                    spec_match_segments(segs.skip(1), seg_tail(path))
                } else {
                    None
                }
            },
            BoundSegModel::Param(n, k) => {
                match spec_parse_value(k, seg_head(path)) {
                    None => None,
                    Some(v) => match spec_match_segments(segs.skip(1), seg_tail(path)) {
                        None => None,
                        Some(bs) => Some(seq![BindingModel { name: n, value: v }] + bs),
                    },
                }
            },
            BoundSegModel::Wild(n) => {
                match spec_match_segments(segs.skip(1), Seq::empty()) {
                    None => None,
                    Some(bs) => Some(
                        seq![BindingModel { name: n, value: ValueModel::Str(path) }] + bs,
                    ),
                }
            },
        }
    }
}

/// What matching `x` against a request with path `path` and method
/// `method` yields: the path must open with `/` and its components must
/// satisfy every segment with nothing left over, else `Error::Path`;
/// then, when the extractor names methods, the request's must stand
/// among them, else `Error::Method`; otherwise the bindings.
pub open spec fn spec_extract(x: ExtractorModel, path: Seq<char>, method: Method) -> Result<
    Seq<BindingModel>,
    Error,
> {
    if path.len() == 0 || path[0] != '/' {
        Err(Error::Path)
    } else {
        match spec_match_segments(x.segments, path.skip(1)) {
            None => Err(Error::Path),
            Some(bs) => {
                if x.methods.len() == 0 || x.methods.contains(method) {
                    Ok(bs)
                } else {
                    Err(Error::Method)
                }
            },
        }
    }
}

impl Extractor {
    /// Match a request against this route, exactly as [`spec_extract`]
    /// describes: the typed parameter bundle on success, and the error
    /// naming what failed otherwise.
    pub fn extract(&self, path: &str, method: Method) -> (r: Result<Extracted, Error>)
        ensures
            match r {
                Ok(ex) => spec_extract(self.model(), path@, method) == Ok::<_, Error>(ex.model()),
                Err(e) => spec_extract(self.model(), path@, method) == Err::<Seq<BindingModel>, _>(
                    e,
                ),
            },
    {
        let n0 = path.unicode_len();
        if n0 == 0 {
            return Err(Error::Path);
        }
        if path.get_char(0) != '/' {
            return Err(Error::Path);
        }
        let mut cur: &str = skip_chars(path, 1);
        let ghost p0 = path@.skip(1);
        let ghost segs_m = bound_segs_model(self.segments@);
        let n = self.segments.len();
        let mut acc: Vec<Binding> = Vec::new();
        let mut i: usize = 0;
        proof {
            assert(bindings_model(acc@) =~= Seq::<BindingModel>::empty());
            assert(segs_m.skip(0) =~= segs_m);
            match spec_match_segments(segs_m, p0) {
                Some(bs) => {
                    assert(Seq::<BindingModel>::empty() + bs =~= bs);
                },
                None => {},
            }
        }
        while i < n
            invariant
                0 <= i <= n,
                n == self.segments@.len(),
                segs_m == bound_segs_model(self.segments@),
                path@.len() > 0 && path@[0] == '/',
                p0 == path@.skip(1),
                match spec_match_segments(segs_m.skip(i as int), cur@) {
                    Some(bs) => spec_match_segments(segs_m, p0) == Some(
                        bindings_model(acc@) + bs,
                    ),
                    None => spec_match_segments(segs_m, p0) is None,
                },
            decreases n - i,
        {
            proof {
                assert(segs_m.skip(i as int)[0] == self.segments@[i as int].model());
                assert(segs_m.skip(i as int).skip(1) =~= segs_m.skip(i + 1));
            }
            match &self.segments[i] {
                BoundSegment::Lit(l) => {
                    let (head, tail) = split_segment(cur);
                    if !str_eq(head, l.as_str()) {
                        return Err(Error::Path);
                    }
                    cur = tail;
                },
                BoundSegment::Param(name, k) => {
                    let (head, tail) = split_segment(cur);
                    match parse_value(*k, head) {
                        None => {
                            return Err(Error::Path);
                        },
                        Some(v) => {
                            let b = Binding { name: name.clone(), value: v };
                            let ghost acc0 = acc@;
                            let ghost bm = b.model();
                            acc.push(b);
                            proof {
                                assert(bindings_model(acc@) =~= bindings_model(acc0).push(bm));
                                lemma_prepend_shift(
                                    bindings_model(acc0),
                                    bm,
                                    spec_match_segments(segs_m.skip(i + 1), tail@),
                                );
                            }
                            cur = tail;
                        },
                    }
                },
                BoundSegment::Wild(name) => {
                    let b = Binding { name: name.clone(), value: Value::Str(cur.to_owned()) };
                    let ghost acc0 = acc@;
                    let ghost bm = b.model();
                    let len_cur = cur.unicode_len();
                    let empty_rest = skip_chars(cur, len_cur);
                    proof {
                        assert(empty_rest@ =~= Seq::<char>::empty());
                    }
                    acc.push(b);
                    proof {
                        assert(bindings_model(acc@) =~= bindings_model(acc0).push(bm));
                        lemma_prepend_shift(
                            bindings_model(acc0),
                            bm,
                            spec_match_segments(segs_m.skip(i + 1), Seq::empty()),
                        );
                    }
                    cur = empty_rest;
                },
            }
            i += 1;
        }
        proof {
            assert(segs_m.skip(n as int) =~= Seq::<BoundSegModel>::empty());
        }
        if !cur.is_empty() {
            return Err(Error::Path);
        }
        proof {
            assert(bindings_model(acc@) + Seq::<BindingModel>::empty() =~= bindings_model(acc@));
        }
        if self.methods.len() > 0 && !method_in(&self.methods, method) {
            return Err(Error::Method);
        }
        Ok(Extracted { bindings: acc })
    }
}

proof fn lemma_prepend_shift(
    acc: Seq<BindingModel>,
    b: BindingModel,
    rest: Option<Seq<BindingModel>>,
)
    ensures
        match rest {
            Some(bs) => acc + (seq![b] + bs) =~= acc.push(b) + bs,
            None => true,
        },
{
}

/// The type declared for the first parameter named `name`, or `Str` when
/// none is.
pub open spec fn spec_kind_of(ps: Seq<ParamModel>, name: Seq<char>) -> Kind
    decreases ps.len(),
{
    if ps.len() == 0 {
        Kind::Str
    } else if ps[0].name == name {
        ps[0].kind
    } else {
        spec_kind_of(ps.skip(1), name)
    }
}

/// The names of the declared parameters, in order.
pub open spec fn names_of(ps: Seq<ParamModel>) -> Seq<Seq<char>> {
    ps.map_values(|p: ParamModel| p.name)
}

/// No two declared parameters share a name.
pub open spec fn params_distinct(ps: Seq<ParamModel>) -> bool {
    forall|i: int, j: int| 0 <= i < j < ps.len() ==> ps[i].name != ps[j].name
}

/// Every declared parameter is named by the descriptor.
pub open spec fn params_known(names: Seq<Seq<char>>, ps: Seq<ParamModel>) -> bool {
    forall|i: int| 0 <= i < ps.len() ==> names.contains(#[trigger] ps[i].name)
}

/// Every descriptor parameter is declared.
pub open spec fn params_complete(names: Seq<Seq<char>>, ps: Seq<ParamModel>) -> bool {
    forall|i: int| 0 <= i < names.len() ==> names_of(ps).contains(#[trigger] names[i])
}

/// Every wildcard parameter is declared as a string.
pub open spec fn wild_kinds_ok(segs: Seq<SegmentModel>, ps: Seq<ParamModel>) -> bool {
    forall|i: int|
        0 <= i < segs.len() ==> ((#[trigger] segs[i]) matches SegmentModel::Wild(n)
            ==> spec_kind_of(ps, n) == Kind::Str)
}

/// The descriptor's segments with each parameter's declared type bound
/// in.
pub open spec fn spec_bind_segments(segs: Seq<SegmentModel>, ps: Seq<ParamModel>) -> Seq<
    BoundSegModel,
> {
    segs.map_values(
        |s: SegmentModel|
            match s {
                SegmentModel::Lit(l) => BoundSegModel::Lit(l),
                SegmentModel::Param(n) => BoundSegModel::Param(n, spec_kind_of(ps, n)),
                SegmentModel::Wild(n) => BoundSegModel::Wild(n),
            },
    )
}

/// What compiling descriptor `d` against the declared parameters `ps`
/// yields. The declarations must be at least as many as the descriptor's
/// parameters, every descriptor parameter must be declared, each
/// declared name must be a descriptor parameter and occur once, and a
/// wildcard must be declared as a string; the compiled route then binds
/// each parameter to its declared type.
pub open spec fn spec_compile(d: DescriptorModel, ps: Seq<ParamModel>) -> Result<
    ExtractorModel,
    DescriptorError,
> {
    let names = spec_param_names(d.segments);
    if ps.len() < names.len() {
        Err(DescriptorError::ArityMismatch)
    } else if !params_complete(names, ps) {
        Err(DescriptorError::MissingParameter)
    } else if !params_known(names, ps) || !params_distinct(ps) {
        Err(DescriptorError::UnknownParameter)
    } else if !wild_kinds_ok(d.segments, ps) {
        Err(DescriptorError::UnknownParameter)
    } else {
        Ok(ExtractorModel { methods: d.methods, segments: spec_bind_segments(d.segments, ps) })
    }
}

/// Whether `s` stands among `names`.
fn name_in_names(names: &Vec<String>, s: &str) -> (r: bool)
    ensures
        r == names_model(names@).contains(s@),
{
    let n = names.len();
    let mut i: usize = 0;
    while i < n
        invariant
            0 <= i <= n,
            n == names@.len(),
            forall|j: int| 0 <= j < i ==> names_model(names@)[j] != s@,
        decreases n - i,
    {
        if str_eq(names[i].as_str(), s) {
            assert(names_model(names@)[i as int] == s@);
            return true;
        }
        i += 1;
    }
    assert(forall|j: int| 0 <= j < names_model(names@).len() ==> names_model(names@)[j] != s@);
    false
}

/// Whether some declared parameter is named `s`.
fn param_named(params: &Vec<ParamSpec>, s: &str) -> (r: bool)
    ensures
        r == names_of(params_model(params@)).contains(s@),
{
    let n = params.len();
    let mut i: usize = 0;
    while i < n
        invariant
            0 <= i <= n,
            n == params@.len(),
            forall|j: int| 0 <= j < i ==> names_of(params_model(params@))[j] != s@,
        decreases n - i,
    {
        if str_eq(params[i].name.as_str(), s) {
            assert(names_of(params_model(params@))[i as int] == s@);
            return true;
        }
        i += 1;
    }
    assert(forall|j: int|
        0 <= j < names_of(params_model(params@)).len() ==> names_of(params_model(params@))[j]
            != s@);
    false
}

proof fn lemma_kind_of_at(ps: Seq<ParamModel>, name: Seq<char>, i: int)
    requires
        0 <= i < ps.len(),
        forall|j: int| 0 <= j < i ==> ps[j].name != name,
        ps[i].name == name,
    ensures
        spec_kind_of(ps, name) == ps[i].kind,
    decreases ps.len(),
{
    if i > 0 {
        lemma_kind_of_at(ps.skip(1), name, i - 1);
    }
}

proof fn lemma_kind_of_none(ps: Seq<ParamModel>, name: Seq<char>)
    requires
        forall|j: int| 0 <= j < ps.len() ==> ps[j].name != name,
    ensures
        spec_kind_of(ps, name) == Kind::Str,
    decreases ps.len(),
{
    if ps.len() > 0 {
        lemma_kind_of_none(ps.skip(1), name);
    }
}

/// The type declared for the parameter named `s`.
fn kind_of(params: &Vec<ParamSpec>, s: &str) -> (r: Kind)
    ensures
        r == spec_kind_of(params_model(params@), s@),
{
    let n = params.len();
    let mut i: usize = 0;
    while i < n
        invariant
            0 <= i <= n,
            n == params@.len(),
            forall|j: int| 0 <= j < i ==> params_model(params@)[j].name != s@,
        decreases n - i,
    {
        if str_eq(params[i].name.as_str(), s) {
            proof {
                lemma_kind_of_at(params_model(params@), s@, i as int);
            }
            return params[i].kind;
        }
        i += 1;
    }
    proof {
        lemma_kind_of_none(params_model(params@), s@);
    }
    Kind::Str
}

impl Extractor {
    /// Cross-validate a descriptor against a handler's declared
    /// parameters and bind each parameter's type in, exactly as
    /// [`spec_compile`] describes.
    pub fn compile(desc: &Descriptor, params: &Vec<ParamSpec>) -> (r: Result<
        Extractor,
        DescriptorError,
    >)
        ensures
            match r {
                Ok(x) => spec_compile(desc.model(), params_model(params@)) == Ok::<
                    _,
                    DescriptorError,
                >(x.model()),
                Err(e) => spec_compile(desc.model(), params_model(params@)) == Err::<
                    ExtractorModel,
                    _,
                >(e),
            },
    {
        let names = desc.param_names();
        let ghost nm = spec_param_names(desc.model().segments);
        let ghost pm = params_model(params@);
        let np = params.len();
        if np < names.len() {
            return Err(DescriptorError::ArityMismatch);
        }
        let mut k: usize = 0;
        while k < names.len()
            invariant
                0 <= k <= names@.len(),
                np == params@.len(),
                pm == params_model(params@),
                nm == names_model(names@),
                nm == spec_param_names(desc.model().segments),
                np >= names@.len(),
                forall|j: int| 0 <= j < k ==> names_of(pm).contains(#[trigger] nm[j]),
            decreases names@.len() - k,
        {
            if !param_named(params, names[k].as_str()) {
                proof {
                    assert(nm[k as int] == names@[k as int]@);
                    assert(!params_complete(nm, pm));
                }
                return Err(DescriptorError::MissingParameter);
            }
            k += 1;
        }
        proof {
            assert(params_complete(nm, pm));
        }
        let mut i: usize = 0;
        while i < np
            invariant
                0 <= i <= np,
                np == params@.len(),
                np >= names@.len(),
                pm == params_model(params@),
                nm == names_model(names@),
                nm == spec_param_names(desc.model().segments),
                params_complete(nm, pm),
                forall|j: int| 0 <= j < i ==> nm.contains(#[trigger] pm[j].name),
                forall|j: int, k2: int| 0 <= j < k2 < i ==> pm[j].name != pm[k2].name,
            decreases np - i,
        {
            if !name_in_names(&names, params[i].name.as_str()) {
                proof {
                    assert(pm[i as int].name == params@[i as int].name@);
                    assert(!params_known(nm, pm));
                }
                return Err(DescriptorError::UnknownParameter);
            }
            let mut j: usize = 0;
            while j < i
                invariant
                    0 <= j <= i < np,
                    np == params@.len(),
                    np >= names@.len(),
                    pm == params_model(params@),
                    nm == names_model(names@),
                    nm == spec_param_names(desc.model().segments),
                    params_complete(nm, pm),
                    forall|k2: int| 0 <= k2 < j ==> pm[k2].name != pm[i as int].name,
                decreases i - j,
            {
                if str_eq(params[j].name.as_str(), params[i].name.as_str()) {
                    proof {
                        assert(pm[j as int].name == pm[i as int].name);
                        assert(!params_distinct(pm));
                    }
                    return Err(DescriptorError::UnknownParameter);
                }
                j += 1;
            }
            i += 1;
        }
        proof {
            assert(params_known(nm, pm));
            assert(params_distinct(pm));
        }
        let ns = desc.segments.len();
        let ghost sm = desc.model().segments;
        let mut out: Vec<BoundSegment> = Vec::new();
        let mut s: usize = 0;
        proof {
            assert(bound_segs_model(out@) =~= spec_bind_segments(sm, pm).take(0));
        }
        while s < ns
            invariant
                0 <= s <= ns,
                ns == desc.segments@.len(),
                pm == params_model(params@),
                nm == spec_param_names(desc.model().segments),
                sm == desc.model().segments,
                params_known(nm, pm),
                params_distinct(pm),
                params_complete(nm, pm),
                np == params@.len(),
                np >= names@.len(),
                nm == names_model(names@),
                bound_segs_model(out@) == spec_bind_segments(sm, pm).take(s as int),
                forall|j: int|
                    0 <= j < s ==> ((#[trigger] sm[j]) matches SegmentModel::Wild(n)
                        ==> spec_kind_of(pm, n) == Kind::Str),
            decreases ns - s,
        {
            let ghost old_out = out@;
            proof {
                assert(sm[s as int] == desc.segments@[s as int].model());
            }
            match &desc.segments[s] {
                Segment::Lit(l) => {
                    out.push(BoundSegment::Lit(l.clone()));
                },
                Segment::Param(n) => {
                    let kd = kind_of(params, n.as_str());
                    out.push(BoundSegment::Param(n.clone(), kd));
                },
                Segment::Wild(n) => {
                    let kd = kind_of(params, n.as_str());
                    if !matches!(kd, Kind::Str) {
                        proof {
                            assert(!wild_kinds_ok(sm, pm));
                        }
                        return Err(DescriptorError::UnknownParameter);
                    }
                    out.push(BoundSegment::Wild(n.clone()));
                },
            }
            proof {
                assert(bound_segs_model(out@) =~= bound_segs_model(old_out).push(
                    out@.last().model(),
                ));
                assert(spec_bind_segments(sm, pm).take(s + 1) =~= spec_bind_segments(
                    sm,
                    pm,
                ).take(s as int).push(spec_bind_segments(sm, pm)[s as int]));
            }
            s += 1;
        }
        proof {
            assert(wild_kinds_ok(sm, pm));
            assert(spec_bind_segments(sm, pm).take(ns as int) =~= spec_bind_segments(sm, pm));
        }
        let methods = clone_methods(&desc.methods);
        Ok(Extractor { methods, segments: out })
    }
}

/// Method independence: when the path satisfies every segment, a method
/// that stands outside a non-empty method list fails with
/// `Error::Method`, never with `Error::Path`.
pub proof fn lemma_method_independence(x: ExtractorModel, path: Seq<char>, m: Method)
    requires
        x.methods.len() > 0,
        !x.methods.contains(m),
        path.len() > 0 && path[0] == '/',
        spec_match_segments(x.segments, path.skip(1)) is Some,
    ensures
        spec_extract(x, path, m) == Err::<Seq<BindingModel>, Error>(Error::Method),
{
}

/// A path failure does not depend on the method: one method sees
/// `Error::Path` exactly when every method does.
pub proof fn lemma_path_error_any_method(x: ExtractorModel, path: Seq<char>, m1: Method, m2: Method)
    ensures
        (spec_extract(x, path, m1) == Err::<Seq<BindingModel>, Error>(Error::Path))
            == (spec_extract(x, path, m2) == Err::<Seq<BindingModel>, Error>(Error::Path)),
{
}

/// Matching is pure: the outcome is a function of the route, the path
/// and the method alone, so two matches of the same request against the
/// same route are the same, and the route itself is never changed.
pub proof fn lemma_extract_pure(
    x: ExtractorModel,
    path: Seq<char>,
    m: Method,
    r1: Result<Seq<BindingModel>, Error>,
    r2: Result<Seq<BindingModel>, Error>,
)
    requires
        r1 == spec_extract(x, path, m),
        r2 == spec_extract(x, path, m),
    ensures
        r1 == r2,
{
}

/// Wildcard greediness: a trailing wildcard binds the whole remaining
/// path, whatever it holds.
pub proof fn lemma_wildcard_takes_rest(n: Seq<char>, path: Seq<char>)
    ensures
        spec_match_segments(seq![BoundSegModel::Wild(n)], path) == Some(
            seq![BindingModel { name: n, value: ValueModel::Str(path) }],
        ),
{
    let segs = seq![BoundSegModel::Wild(n)];
    let bound = seq![BindingModel { name: n, value: ValueModel::Str(path) }];
    assert(segs.skip(1) =~= Seq::<BoundSegModel>::empty());
    assert(spec_match_segments(Seq::<BoundSegModel>::empty(), Seq::<char>::empty()) == Some(
        Seq::<BindingModel>::empty(),
    ));
    assert(segs[0] == BoundSegModel::Wild(n));
    assert(bound + Seq::<BindingModel>::empty() =~= bound);
}

/// Copy a method list.
fn clone_methods(ms: &Vec<Method>) -> (r: Vec<Method>)
    ensures
        r@ == ms@,
{
    let n = ms.len();
    let mut out: Vec<Method> = Vec::new();
    let mut i: usize = 0;
    while i < n
        invariant
            0 <= i <= n,
            n == ms@.len(),
            out@ == ms@.take(i as int),
        decreases n - i,
    {
        out.push(ms[i]);
        proof {
            assert(ms@.take(i + 1) =~= ms@.take(i as int).push(ms@[i as int]));
        }
        i += 1;
    }
    proof {
        assert(ms@.take(n as int) =~= ms@);
    }
    out
}

} // verus!
