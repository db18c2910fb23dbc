//! The function splitter: the build-time transform applied to a function
//! declared server-callable. From one annotated signature it emits a pair of
//! mutually consistent artifacts — a server-side wrapper that unpacks the
//! argument bundle, invokes the original body and encodes the result, and a
//! client-side stub with the original signature that hashes the function's
//! qualified path, packs its arguments and performs the remote call.

use vstd::prelude::*;
use crate::hash::hash_id;
use crate::hash::spec_hash_id;
use crate::wire::spec_pack;
use crate::wire::spec_unpack;
use crate::wire::WireV;

verus! {

/// One declared parameter: its name and the textual form of its type.
pub struct Param {
    pub name: String,
    pub ty: String,
}

/// A function declared server-callable, as the build-time pass sees it:
/// a qualified home module, a name, an ordered parameter list, and a result
/// type (`None` for the unit result).
pub struct AnnotatedFn {
    pub owner_module: String,
    pub name: String,
    pub params: Vec<Param>,
    pub ret_ty: Option<String>,
}

/// The shape of an argument bundle: a lone value for exactly one parameter,
/// an ordered tuple of all parameter types otherwise.
pub enum BundleShape {
    Single(String),
    Tuple(Vec<String>),
}

/// The mathematical shadow of a bundle shape.
pub enum ShapeV {
    Single(Seq<char>),
    Tuple(Seq<Seq<char>>),
}

/// The model of a bundle shape.
pub open spec fn shape_view(s: BundleShape) -> ShapeV {
    match s {
        BundleShape::Single(t) => ShapeV::Single(t@),
        BundleShape::Tuple(ts) => ShapeV::Tuple(ts.deep_view()),
    }
}

/// How many values a bundle of this shape carries.
pub open spec fn shape_arity(s: ShapeV) -> nat {
    match s {
        ShapeV::Single(_) => 1,
        ShapeV::Tuple(ts) => ts.len(),
    }
}

/// The declared parameter names, in declaration order.
pub open spec fn spec_param_names(f: AnnotatedFn) -> Seq<Seq<char>> {
    f.params@.map_values(|p: Param| p.name@)
}

/// The declared parameter types, in declaration order.
pub open spec fn spec_param_tys(f: AnnotatedFn) -> Seq<Seq<char>> {
    f.params@.map_values(|p: Param| p.ty@)
}

/// The bundle shape of a function: one parameter travels bare, any other
/// count travels as the ordered tuple of all parameter types.
pub open spec fn spec_bundle_shape(f: AnnotatedFn) -> ShapeV {
    if f.params@.len() == 1 {
        ShapeV::Single(f.params@[0].ty@)
    } else {
        ShapeV::Tuple(spec_param_tys(f))
    }
}

/// The generated server wrapper's export name.
pub open spec fn spec_wrapper_name(f: AnnotatedFn) -> Seq<char> {
    "__lithe_rpc_wrapper_"@ + f.name@
}

/// The fully qualified path key the client stub hashes.
pub open spec fn spec_path_key(f: AnnotatedFn) -> Seq<char> {
    f.owner_module@ + "::"@ + f.name@
}

/// The model of the declared result type.
pub open spec fn spec_ret_view(f: AnnotatedFn) -> Option<Seq<char>> {
    match f.ret_ty {
        Some(t) => Some(t@),
        None => None,
    }
}

/// The server artifact of a split: a wrapper, exported beside the unchanged
/// original body, that unpacks a bundle of the recorded shape into the
/// recorded parameter names, invokes the function, and encodes its result.
pub struct ServerWrapper {
    pub wrapper_name: String,
    pub param_names: Vec<String>,
    pub shape: BundleShape,
    pub ret_ty: Option<String>,
}

/// The client artifact of a split: a stub with the original signature that
/// hashes the recorded path key to its dispatch identifier, packs its
/// arguments into a bundle of the recorded shape, and calls the remote side.
pub struct ClientStub {
    pub name: String,
    pub path_key: String,
    pub identifier: String,
    pub param_names: Vec<String>,
    pub shape: BundleShape,
    pub ret_ty: Option<String>,
}

/// The model of an optional type text.
pub open spec fn opt_ty_view(t: Option<String>) -> Option<Seq<char>> {
    match t {
        Some(s) => Some(s@),
        None => None,
    }
}

/// Exactly the server wrapper that splitting `f` emits.
pub open spec fn is_server_wrapper_of(w: ServerWrapper, f: AnnotatedFn) -> bool {
    &&& w.wrapper_name@ == spec_wrapper_name(f)
    &&& w.param_names.deep_view() == spec_param_names(f)
    &&& shape_view(w.shape) == spec_bundle_shape(f)
    &&& opt_ty_view(w.ret_ty) == spec_ret_view(f)
}

/// Exactly the client stub that splitting `f` emits.
pub open spec fn is_client_stub_of(s: ClientStub, f: AnnotatedFn) -> bool {
    &&& s.name@ == f.name@
    &&& s.path_key@ == spec_path_key(f)
    &&& s.identifier@ == spec_hash_id(spec_path_key(f))
    &&& s.param_names.deep_view() == spec_param_names(f)
    &&& shape_view(s.shape) == spec_bundle_shape(f)
    &&& opt_ty_view(s.ret_ty) == spec_ret_view(f)
}

/// Clones the ordered parameter names of `f`.
fn clone_param_names(f: &AnnotatedFn) -> (r: Vec<String>)
    ensures
        r.deep_view() == spec_param_names(*f),
{
    let mut r: Vec<String> = Vec::new();
    let mut i: usize = 0;
    while i < f.params.len()
        invariant
            i <= f.params@.len(),
            r@.len() == i,
            forall|j: int| 0 <= j < i ==> r@[j]@ == f.params@[j].name@,
        decreases f.params@.len() - i,
    {
        r.push(f.params[i].name.clone());
        i = i + 1;
    }
    proof {
        assert(r.deep_view() =~= spec_param_names(*f));
    }
    r
}

/// Clones the ordered parameter types of `f`.
fn clone_param_tys(f: &AnnotatedFn) -> (r: Vec<String>)
    ensures
        r.deep_view() == spec_param_tys(*f),
{
    let mut r: Vec<String> = Vec::new();
    let mut i: usize = 0;
    while i < f.params.len()
        invariant
            i <= f.params@.len(),
            r@.len() == i,
            forall|j: int| 0 <= j < i ==> r@[j]@ == f.params@[j].ty@,
        decreases f.params@.len() - i,
    {
        r.push(f.params[i].ty.clone());
        i = i + 1;
    }
    proof {
        assert(r.deep_view() =~= spec_param_tys(*f));
    }
    r
}

/// Clones an optional type text.
fn clone_opt_ty(t: &Option<String>) -> (r: Option<String>)
    ensures
        opt_ty_view(r) == opt_ty_view(*t),
{
    match t {
        Some(s) => Some(s.clone()),
        None => None,
    }
}

/// The bundle shape of `f`, as a value.
fn bundle_shape(f: &AnnotatedFn) -> (r: BundleShape)
    ensures
        shape_view(r) == spec_bundle_shape(*f),
{
    if f.params.len() == 1 {
        BundleShape::Single(f.params[0].ty.clone())
    } else {
        BundleShape::Tuple(clone_param_tys(f))
    }
}

/// Splits one server-callable function into its two artifacts: the server
/// wrapper and the client stub. The two are emitted side by side from the
/// same signature, so their recorded arity, order and bundle shape agree by
/// construction — `lemma_split_pairing` states that pairing.
pub fn split_function(f: &AnnotatedFn) -> (r: (ServerWrapper, ClientStub))
    ensures
        is_server_wrapper_of(r.0, *f),
        is_client_stub_of(r.1, *f),
{
    let mut wrapper_name = "__lithe_rpc_wrapper_".to_owned();
    wrapper_name.append(f.name.as_str());
    let wrapper = ServerWrapper {
        wrapper_name,
        param_names: clone_param_names(f),
        shape: bundle_shape(f),
        ret_ty: clone_opt_ty(&f.ret_ty),
    };
    let mut path_key = f.owner_module.clone();
    path_key.append("::");
    path_key.append(f.name.as_str());
    let identifier = hash_id(path_key.as_str());
    let stub = ClientStub {
        name: f.name.clone(),
        path_key,
        identifier,
        param_names: clone_param_names(f),
        shape: bundle_shape(f),
        ret_ty: clone_opt_ty(&f.ret_ty),
    };
    (wrapper, stub)
}

/// Splitter output pairing: for every server-callable function, the bundle
/// shape the server wrapper expects and the bundle shape the client stub
/// produces are structurally identical — same arity, same positional order
/// of parameters, same types — and that arity is the function's own.
pub proof fn lemma_split_pairing(f: AnnotatedFn, w: ServerWrapper, s: ClientStub)
    requires
        is_server_wrapper_of(w, f),
        is_client_stub_of(s, f),
    ensures
        shape_view(w.shape) == shape_view(s.shape),
        w.param_names.deep_view() == s.param_names.deep_view(),
        shape_arity(shape_view(w.shape)) == f.params@.len(),
{
}

/// The two artifacts compose: a bundle the stub packs from `n` ordered
/// argument values is unpacked by the wrapper — under the arity both sides
/// recorded — back into exactly those values, in the same order.
pub proof fn lemma_split_round_trip(f: AnnotatedFn, w: ServerWrapper, vals: Seq<WireV>)
    requires
        is_server_wrapper_of(w, f),
        vals.len() == f.params@.len(),
    ensures
        spec_unpack(spec_pack(vals), shape_arity(shape_view(w.shape))) == Some(vals),
{
    crate::wire::lemma_pack_unpack_inverse(vals);
}

} // verus!
