//! KDL document model — the simplified node tree that config.kdl is read
//! into and written from.
//!
//! Text is parsed and emitted by the `kdl` crate; this module mirrors the
//! crate's document one-for-one (`KdlItem`) and converts between that mirror
//! and the library's own `Node` tree.

use vstd::prelude::*;
use vstd::arithmetic::power2::pow2;
use crate::text::{eq_ignore_ascii_case_spec, eq_ignore_ascii_case, str_eq};

verus! {

#[verifier::external_type_specification]
#[verifier::external_body]
pub struct ExKdlValue(kdl::KdlValue);

#[verifier::external_type_specification]
#[verifier::external_body]
pub struct ExKdlNode(kdl::KdlNode);

/// `KdlValue::clone` (derived by the `kdl` crate): a copy equal to the value cloned.
pub assume_specification[ <kdl::KdlValue as Clone>::clone ](v: &kdl::KdlValue) -> (r: kdl::KdlValue)
    ensures
        r == *v,
;

// ── Floating-point values ───────────────────────────────────────────────

/// A floating-point value read from a KDL document. The library never
/// computes with it; it keeps the crate's own value (so it is written back
/// unchanged) together with its IEEE-754 bit pattern.
#[derive(Clone, Debug)]
pub struct KdlFloat {
    kept: kdl::KdlValue,
    bits: u64,
}

impl KdlFloat {
    /// The IEEE-754 binary64 bit pattern of the value.
    pub closed spec fn spec_bits(&self) -> u64 {
        self.bits
    }

    /// The IEEE-754 binary64 bit pattern of the value.
    pub fn bits(&self) -> (r: u64)
        ensures
            r == self.spec_bits(),
    {
        self.bits
    }
}

/// `f as i64` for the binary64 value with bit pattern `bits`: rounds toward
/// zero, NaN gives 0, out-of-range values (and infinities) saturate.
pub open spec fn f64_bits_to_i64(bits: u64) -> i64 {
    let neg = bits >= 0x8000_0000_0000_0000u64;
    let e = ((bits % 0x8000_0000_0000_0000u64) / 0x10_0000_0000_0000u64) as nat;
    let m = (bits % 0x10_0000_0000_0000u64) as nat;
    if e == 2047 {
        if m != 0 {
            0
        } else if neg {
            i64::MIN
        } else {
            i64::MAX
        }
    } else if e < 1023 {
        0
    } else {
        let big: nat = m + 0x10_0000_0000_0000nat;
        let t: nat = if e >= 1075 {
            big * pow2((e - 1075) as nat)
        } else {
            big / pow2((1075 - e) as nat)
        };
        if neg {
            if t >= 0x8000_0000_0000_0000nat {
                i64::MIN
            } else {
                (0 - t) as i64
            }
        } else {
            if t > i64::MAX {
                i64::MAX
            } else {
                t as i64
            }
        }
    }
}

/// Saturating truncation toward zero of the binary64 value with bit
/// pattern `bits`, computed on integers.
pub fn f64_bits_trunc(bits: u64) -> (r: i64)
    ensures
        r == f64_bits_to_i64(bits),
{
    let neg = bits >= 0x8000_0000_0000_0000u64;
    let e = (bits % 0x8000_0000_0000_0000u64) / 0x10_0000_0000_0000u64;
    let m = bits % 0x10_0000_0000_0000u64;
    if e == 2047 {
        if m != 0 {
            0
        } else if neg {
            i64::MIN
        } else {
            i64::MAX
        }
    } else if e < 1023 {
        0
    } else if e >= 1086 {
        let big: u64 = m + 0x10_0000_0000_0000u64;
        proof {
            let k = (e - 1075) as nat;
            vstd::arithmetic::power2::lemma_pow2_adds(11, (k - 11) as nat);
            vstd::arithmetic::power2::lemma_pow2_pos((k - 11) as nat);
            vstd::arithmetic::power2::lemma2_to64();
            assert(pow2(k) >= pow2(11)) by (nonlinear_arith)
                requires
                    pow2(k) == pow2(11) * pow2((k - 11) as nat),
                    pow2((k - 11) as nat) > 0,
            ;
            assert(big * pow2(k) >= 0x10_0000_0000_0000nat * 2048) by (nonlinear_arith)
                requires
                    big >= 0x10_0000_0000_0000nat,
                    pow2(k) >= 2048,
            ;
        }
        if neg {
            i64::MIN
        } else {
            i64::MAX
        }
    } else if e >= 1075 {
        let big: u64 = m + 0x10_0000_0000_0000u64;
        let k = e - 1075;
        let p: u64 = 1u64 << (k as u64);
        proof {
            vstd::bits::lemma_u64_pow2_no_overflow(k as nat);
            vstd::arithmetic::power2::lemma2_to64();
            vstd::bits::lemma_u64_shl_is_mul(1, k as u64);
            assert(pow2(k as nat) <= 1024) by {
                if k < 10 {
                    vstd::arithmetic::power2::lemma_pow2_strictly_increases(k as nat, 10);
                }
            }
            assert(big * p < 0x8000_0000_0000_0000nat) by (nonlinear_arith)
                requires
                    big < 0x20_0000_0000_0000nat,
                    p <= 1024,
            ;
        }
        let t = big * p;
        if neg {
            0 - (t as i64)
        } else {
            t as i64
        }
    } else {
        let big: u64 = m + 0x10_0000_0000_0000u64;
        let k = 1075 - e;
        let p: u64 = 1u64 << (k as u64);
        proof {
            vstd::bits::lemma_u64_pow2_no_overflow(k as nat);
            vstd::bits::lemma_u64_shl_is_mul(1, k as u64);
            vstd::arithmetic::power2::lemma_pow2_pos(k as nat);
            assert(big / p <= big) by (nonlinear_arith)
                requires
                    p > 0,
            ;
        }
        let t = big / p;
        if neg {
            0 - (t as i64)
        } else {
            t as i64
        }
    }
}

// ── Values ──────────────────────────────────────────────────────────────

/// A KDL value.
#[derive(Clone, Debug)]
pub enum NodeValue {
    Str(String),
    Int(i64),
    Float(KdlFloat),
    Bool(bool),
}

/// The mathematical view of a `NodeValue`; a float is seen by its bit pattern.
pub enum ValueV {
    Str(Seq<char>),
    Int(i64),
    Float(u64),
    Bool(bool),
}

impl View for NodeValue {
    type V = ValueV;

    open spec fn view(&self) -> ValueV {
        match self {
            NodeValue::Str(s) => ValueV::Str(s@),
            NodeValue::Int(i) => ValueV::Int(*i),
            NodeValue::Float(f) => ValueV::Float(f.spec_bits()),
            NodeValue::Bool(b) => ValueV::Bool(*b),
        }
    }
}

pub open spec fn as_str_spec(v: ValueV) -> Option<Seq<char>> {
    match v {
        ValueV::Str(s) => Some(s),
        _ => None,
    }
}

pub open spec fn as_int_spec(v: ValueV) -> Option<i64> {
    match v {
        ValueV::Int(i) => Some(i),
        ValueV::Float(b) => Some(f64_bits_to_i64(b)),
        _ => None,
    }
}

pub open spec fn as_bool_spec(v: ValueV) -> Option<bool> {
    match v {
        ValueV::Bool(b) => Some(b),
        _ => None,
    }
}

impl NodeValue {
    pub fn as_str(&self) -> (r: Option<&str>)
        ensures
            match r {
                Some(s) => as_str_spec(self@) == Some(s@),
                None => as_str_spec(self@) is None,
            },
    {
        match self {
            NodeValue::Str(s) => Some(s.as_str()),
            _ => None,
        }
    }

    /// Integers as they are; floats truncated toward zero (saturating).
    pub fn as_int(&self) -> (r: Option<i64>)
        ensures
            r == as_int_spec(self@),
    {
        match self {
            NodeValue::Int(i) => Some(*i),
            NodeValue::Float(f) => Some(f64_bits_trunc(f.bits())),
            _ => None,
        }
    }

    pub fn as_bool(&self) -> (r: Option<bool>)
        ensures
            r == as_bool_spec(self@),
    {
        match self {
            NodeValue::Bool(b) => Some(*b),
            _ => None,
        }
    }
}

// ── Nodes ───────────────────────────────────────────────────────────────

/// A single KDL node: `name arg1 arg2 key1=val1 key2=val2 { children }`
#[derive(Debug)]
pub struct Node {
    pub name: String,
    pub args: Vec<NodeValue>,
    pub props: Vec<(String, NodeValue)>,
    pub children: Vec<Node>,
}

/// The mathematical view of a `Node`.
pub struct NodeV {
    pub name: Seq<char>,
    pub args: Seq<ValueV>,
    pub props: Seq<(Seq<char>, ValueV)>,
    pub children: Seq<NodeV>,
}

pub open spec fn empty_node_v() -> NodeV {
    NodeV { name: Seq::empty(), args: Seq::empty(), props: Seq::empty(), children: Seq::empty() }
}

pub open spec fn props_view(props: Seq<(String, NodeValue)>) -> Seq<(Seq<char>, ValueV)> {
    props.map_values(|p: (String, NodeValue)| (p.0@, p.1@))
}

pub open spec fn values_view(vs: Seq<NodeValue>) -> Seq<ValueV> {
    vs.map_values(|v: NodeValue| v@)
}

pub open spec fn node_view(n: Node) -> NodeV
    decreases n,
{
    NodeV {
        name: n.name@,
        args: values_view(n.args@),
        props: props_view(n.props@),
        children: Seq::new(
            n.children@.len(),
            |i: int|
                if 0 <= i < n.children@.len() {
                    node_view(n.children@[i])
                } else {
                    empty_node_v()
                },
        ),
    }
}

impl View for Node {
    type V = NodeV;

    open spec fn view(&self) -> NodeV {
        node_view(*self)
    }
}

pub open spec fn nodes_view(ns: Seq<Node>) -> Seq<NodeV> {
    ns.map_values(|n: Node| n@)
}

/// The index of the first element satisfying `p`.
pub open spec fn first_index<T>(s: Seq<T>, p: spec_fn(T) -> bool) -> Option<int>
    decreases s.len(),
{
    if s.len() == 0 {
        None
    } else if p(s[0]) {
        Some(0)
    } else {
        match first_index(s.drop_first(), p) {
            Some(i) => Some(i + 1),
            None => None,
        }
    }
}

/// `first_index` is the least index at which `p` holds.
pub proof fn lemma_first_index<T>(s: Seq<T>, p: spec_fn(T) -> bool, i: int)
    requires
        0 <= i <= s.len(),
        forall|j: int| 0 <= j < i ==> !p(#[trigger] s[j]),
    ensures
        i < s.len() && p(s[i]) ==> first_index(s, p) == Some(i),
        i == s.len() ==> first_index(s, p) is None,
    decreases i,
{
    if i > 0 {
        assert forall|j: int| 0 <= j < i - 1 implies !p(#[trigger] s.drop_first()[j]) by {
            assert(s.drop_first()[j] == s[j + 1]);
        }
        lemma_first_index(s.drop_first(), p, i - 1);
        if i < s.len() {
            assert(s.drop_first()[i - 1] == s[i]);
        }
    } else if s.len() > 0 {
    }
}

/// Nothing before what `first_index` finds satisfies `p`.
pub proof fn lemma_first_index_least<T>(s: Seq<T>, p: spec_fn(T) -> bool)
    ensures
        first_index(s, p) matches Some(i) ==> forall|j: int| 0 <= j < i ==> !p(#[trigger] s[j]),
        first_index(s, p) is None ==> forall|j: int| 0 <= j < s.len() ==> !p(#[trigger] s[j]),
    decreases s.len(),
{
    if s.len() > 0 && !p(s[0]) {
        let t = s.drop_first();
        lemma_first_index_least(t, p);
        lemma_first_index_found(t, p);
        if let Some(i) = first_index(s, p) {
            assert forall|j: int| 0 <= j < i implies !p(#[trigger] s[j]) by {
                if j > 0 {
                    assert(t[j - 1] == s[j]);
                }
            }
        } else {
            assert forall|j: int| 0 <= j < s.len() implies !p(#[trigger] s[j]) by {
                if j > 0 {
                    assert(t[j - 1] == s[j]);
                }
            }
        }
    }
}

/// What `first_index` finds is in range and satisfies `p`.
pub proof fn lemma_first_index_found<T>(s: Seq<T>, p: spec_fn(T) -> bool)
    ensures
        first_index(s, p) matches Some(i) ==> 0 <= i < s.len() && p(s[i]),
    decreases s.len(),
{
    if s.len() > 0 && !p(s[0]) {
        lemma_first_index_found(s.drop_first(), p);
        match first_index(s.drop_first(), p) {
            Some(i) => {
                assert(s.drop_first()[i] == s[i + 1]);
            },
            None => {},
        }
    }
}

/// Mapping over a sequence with one more element appends the image of it.
pub proof fn lemma_map_push<A, B>(s: Seq<A>, x: A, f: spec_fn(A) -> B)
    ensures
        s.push(x).map_values(f) == s.map_values(f).push(f(x)),
{
    assert(s.push(x).map_values(f) =~= s.map_values(f).push(f(x)));
}

/// The first `i + 1` elements are the first `i` and then the `i`-th.
pub proof fn lemma_take_push<A>(s: Seq<A>, i: int)
    requires
        0 <= i < s.len(),
    ensures
        s.take(i + 1) == s.take(i).push(s[i]),
{
    assert(s.take(i + 1) =~= s.take(i).push(s[i]));
}

/// The property that `Node::prop` finds: the first whose key matches
/// `key` ignoring ASCII case.
pub open spec fn prop_spec(n: NodeV, key: Seq<char>) -> Option<ValueV> {
    match first_index(n.props, |e: (Seq<char>, ValueV)| eq_ignore_ascii_case_spec(e.0, key)) {
        Some(i) => Some(n.props[i].1),
        None => None,
    }
}

pub open spec fn prop_str_spec(n: NodeV, key: Seq<char>, default: Seq<char>) -> Seq<char> {
    match prop_spec(n, key) {
        Some(v) => match as_str_spec(v) {
            Some(s) => s,
            None => default,
        },
        None => default,
    }
}

pub open spec fn prop_int_spec(n: NodeV, key: Seq<char>, default: i64) -> i64 {
    match prop_spec(n, key) {
        Some(v) => match as_int_spec(v) {
            Some(i) => i,
            None => default,
        },
        None => default,
    }
}

pub open spec fn prop_bool_spec(n: NodeV, key: Seq<char>, default: bool) -> bool {
    match prop_spec(n, key) {
        Some(v) => match as_bool_spec(v) {
            Some(b) => b,
            None => default,
        },
        None => default,
    }
}

/// The property found for `key` is the one at `i` when no earlier key
/// matches it and the key at `i` does.
pub proof fn lemma_prop_at(n: NodeV, key: Seq<char>, i: int)
    requires
        0 <= i < n.props.len(),
        forall|j: int| 0 <= j < i ==> !eq_ignore_ascii_case_spec(#[trigger] n.props[j].0, key),
        eq_ignore_ascii_case_spec(n.props[i].0, key),
    ensures
        prop_spec(n, key) == Some(n.props[i].1),
{
    let p = |e: (Seq<char>, ValueV)| eq_ignore_ascii_case_spec(e.0, key);
    assert forall|j: int| 0 <= j < i implies !p(#[trigger] n.props[j]) by {
        assert(!eq_ignore_ascii_case_spec(n.props[j].0, key));
    }
    lemma_first_index(n.props, p, i);
}

/// No property is found for a key that none matches.
pub proof fn lemma_no_prop(n: NodeV, key: Seq<char>)
    requires
        forall|j: int| 0 <= j < n.props.len() ==> !eq_ignore_ascii_case_spec(#[trigger] n.props[j].0, key),
    ensures
        prop_spec(n, key) is None,
{
    let p = |e: (Seq<char>, ValueV)| eq_ignore_ascii_case_spec(e.0, key);
    assert forall|j: int| 0 <= j < n.props.len() implies !p(#[trigger] n.props[j]) by {
        assert(!eq_ignore_ascii_case_spec(n.props[j].0, key));
    }
    lemma_first_index(n.props, p, n.props.len() as int);
}

/// Properties after setting `key` to `v`: the first property with exactly
/// that key is replaced, otherwise the property is appended.
pub open spec fn set_prop_spec(props: Seq<(Seq<char>, ValueV)>, key: Seq<char>, v: ValueV) -> Seq<
    (Seq<char>, ValueV),
> {
    match first_index(props, |e: (Seq<char>, ValueV)| e.0 == key) {
        Some(i) => props.update(i, (key, v)),
        None => props.push((key, v)),
    }
}

/// The children of a node that carry the given name, in order.
pub open spec fn named_children(cs: Seq<NodeV>, name: Seq<char>) -> Seq<NodeV>
    decreases cs.len(),
{
    if cs.len() == 0 {
        Seq::empty()
    } else {
        let rest = named_children(cs.drop_last(), name);
        if cs.last().name == name {
            rest.push(cs.last())
        } else {
            rest
        }
    }
}

impl Node {
    pub fn new(name: &str) -> (r: Node)
        ensures
            r@ == (NodeV { name: name@, args: Seq::empty(), props: Seq::empty(), children: Seq::empty() }),
    {
        let r = Node { name: name.to_owned(), args: Vec::new(), props: Vec::new(), children: Vec::new() };
        proof {
            assert(r@.args =~= Seq::<ValueV>::empty());
            assert(r@.props =~= Seq::<(Seq<char>, ValueV)>::empty());
            assert(r@.children =~= Seq::<NodeV>::empty());
        }
        r
    }

    /// Get a property value by key (ASCII case-insensitive; first match).
    pub fn prop(&self, key: &str) -> (r: Option<&NodeValue>)
        ensures
            match r {
                Some(v) => prop_spec(self@, key@) == Some(v@),
                None => prop_spec(self@, key@) is None,
            },
    {
        let ghost p = |e: (Seq<char>, ValueV)| eq_ignore_ascii_case_spec(e.0, key@);
        let mut i: usize = 0;
        while i < self.props.len()
            invariant
                i <= self.props.len(),
                self@.props == props_view(self.props@),
                p == (|e: (Seq<char>, ValueV)| eq_ignore_ascii_case_spec(e.0, key@)),
                forall|j: int| 0 <= j < i ==> !p(#[trigger] self@.props[j]),
            decreases self.props.len() - i,
        {
            proof {
                assert(self@.props[i as int] == (self.props@[i as int].0@, self.props@[i as int].1@));
            }
            if eq_ignore_ascii_case(self.props[i].0.as_str(), key) {
                proof {
                    lemma_first_index(self@.props, p, i as int);
                }
                return Some(&self.props[i].1);
            }
            i += 1;
        }
        proof {
            lemma_first_index(self@.props, p, i as int);
        }
        None
    }

    pub fn prop_str(&self, key: &str, default: &str) -> (r: String)
        ensures
            r@ == prop_str_spec(self@, key@, default@),
    {
        match self.prop(key) {
            Some(v) => match v.as_str() {
                Some(s) => s.to_owned(),
                None => default.to_owned(),
            },
            None => default.to_owned(),
        }
    }

    pub fn prop_int(&self, key: &str, default: i64) -> (r: i64)
        ensures
            r == prop_int_spec(self@, key@, default),
    {
        match self.prop(key) {
            Some(v) => match v.as_int() {
                Some(i) => i,
                None => default,
            },
            None => default,
        }
    }

    pub fn prop_bool(&self, key: &str, default: bool) -> (r: bool)
        ensures
            r == prop_bool_spec(self@, key@, default),
    {
        match self.prop(key) {
            Some(v) => match v.as_bool() {
                Some(b) => b,
                None => default,
            },
            None => default,
        }
    }

    /// Find children by name.
    pub fn children_named<'a>(&'a self, name: &str) -> (r: Vec<&'a Node>)
        ensures
            r@.map_values(|c: &Node| c@) == named_children(self@.children, name@),
    {
        let mut out: Vec<&'a Node> = Vec::new();
        let mut i: usize = 0;
        while i < self.children.len()
            invariant
                i <= self.children.len(),
                out@.map_values(|c: &Node| c@) == named_children(
                    self@.children.take(i as int),
                    name@,
                ),
            decreases self.children.len() - i,
        {
            let c = &self.children[i];
            proof {
                assert(self@.children.take(i + 1).drop_last() =~= self@.children.take(i as int));
                assert(self@.children.take(i + 1).last() == c@);
            }
            if str_eq(c.name.as_str(), name) {
                out.push(c);
                proof {
                    assert(out@.map_values(|c: &Node| c@) =~= named_children(
                        self@.children.take(i as int),
                        name@,
                    ).push(c@));
                }
            }
            i += 1;
        }
        proof {
            assert(self@.children.take(self.children.len() as int) =~= self@.children);
        }
        out
    }

    fn set_value(&mut self, key: &str, v: NodeValue)
        ensures
            final(self)@ == (NodeV {
                props: set_prop_spec(old(self)@.props, key@, v@),
                ..old(self)@
            }),
    {
        let ghost p = |e: (Seq<char>, ValueV)| e.0 == key@;
        let ghost vv = v@;
        let mut i: usize = 0;
        while i < self.props.len()
            invariant
                i <= self.props.len(),
                self.name@ == old(self).name@,
                self.args@ == old(self).args@,
                self.props@ == old(self).props@,
                self.children@ == old(self).children@,
                self@ == old(self)@,
                self@.props == props_view(self.props@),
                p == (|e: (Seq<char>, ValueV)| e.0 == key@),
                vv == v@,
                forall|j: int| 0 <= j < i ==> !p(#[trigger] self@.props[j]),
            decreases self.props.len() - i,
        {
            proof {
                assert(self@.props[i as int] == (self.props@[i as int].0@, self.props@[i as int].1@));
            }
            if str_eq(self.props[i].0.as_str(), key) {
                proof {
                    lemma_first_index(self@.props, p, i as int);
                }
                let k = key.to_owned();
                let ghost before = self.props@;
                self.props.set(i, (k, v));
                proof {
                    assert(self.props@ == before.update(i as int, (k, v)));
                    assert(props_view(self.props@) =~= old(self)@.props.update(
                        i as int,
                        (key@, vv),
                    ));
                    lemma_node_view_fields(*self, *old(self));
                }
                return;
            }
            i += 1;
        }
        proof {
            lemma_first_index(self@.props, p, i as int);
        }
        self.props.push((key.to_owned(), v));
        proof {
            assert(props_view(self.props@) =~= old(self)@.props.push((key@, vv)));
            lemma_node_view_fields(*self, *old(self));
        }
    }

    pub fn set_str(&mut self, key: &str, val: &str)
        ensures
            final(self)@ == (NodeV {
                props: set_prop_spec(old(self)@.props, key@, ValueV::Str(val@)),
                ..old(self)@
            }),
    {
        self.set_value(key, NodeValue::Str(val.to_owned()));
    }

    pub fn set_int(&mut self, key: &str, val: i64)
        ensures
            final(self)@ == (NodeV {
                props: set_prop_spec(old(self)@.props, key@, ValueV::Int(val)),
                ..old(self)@
            }),
    {
        self.set_value(key, NodeValue::Int(val));
    }

    pub fn set_bool(&mut self, key: &str, val: bool)
        ensures
            final(self)@ == (NodeV {
                props: set_prop_spec(old(self)@.props, key@, ValueV::Bool(val)),
                ..old(self)@
            }),
    {
        self.set_value(key, NodeValue::Bool(val));
    }
}

/// A node's view is assembled from its fields' views.
proof fn lemma_node_view_fields(a: Node, b: Node)
    requires
        a.name@ == b.name@,
        a.args@ == b.args@,
        a.children@ == b.children@,
    ensures
        a@.name == b@.name,
        a@.args == b@.args,
        a@.children == b@.children,
        a@.props == props_view(a.props@),
{
    assert(a@.children =~= b@.children);
}

/// A KDL document is just a list of top-level nodes.
#[derive(Debug)]
pub struct Document {
    pub nodes: Vec<Node>,
}

impl View for Document {
    type V = Seq<NodeV>;

    open spec fn view(&self) -> Seq<NodeV> {
        nodes_view(self.nodes@)
    }
}

impl Default for Document {
    fn default() -> (r: Document)
        ensures
            r@ == Seq::<NodeV>::empty(),
    {
        let r = Document { nodes: Vec::new() };
        proof {
            assert(r@ =~= Seq::<NodeV>::empty());
        }
        r
    }
}

// ── The kdl crate's document, mirrored ──────────────────────────────────

/// A value as the `kdl` crate holds it.
pub enum KdlScalar {
    Str(String),
    Int(i128),
    Float(KdlFloat),
    Bool(bool),
    Null,
}

/// An entry of a `kdl` node: a property when it has a name, else an argument.
pub struct KdlEntryItem {
    pub name: Option<String>,
    pub value: KdlScalar,
}

/// A node of a `kdl` document, field for field.
pub struct KdlItem {
    pub name: String,
    pub entries: Vec<KdlEntryItem>,
    pub children: Option<Vec<KdlItem>>,
}

pub enum ScalarV {
    Str(Seq<char>),
    Int(i128),
    Float(u64),
    Bool(bool),
    Null,
}

pub struct EntryV {
    pub name: Option<Seq<char>>,
    pub value: ScalarV,
}

pub struct KdlItemV {
    pub name: Seq<char>,
    pub entries: Seq<EntryV>,
    pub children: Option<Seq<KdlItemV>>,
}

impl View for KdlScalar {
    type V = ScalarV;

    open spec fn view(&self) -> ScalarV {
        match self {
            KdlScalar::Str(s) => ScalarV::Str(s@),
            KdlScalar::Int(i) => ScalarV::Int(*i),
            KdlScalar::Float(f) => ScalarV::Float(f.spec_bits()),
            KdlScalar::Bool(b) => ScalarV::Bool(*b),
            KdlScalar::Null => ScalarV::Null,
        }
    }
}

impl View for KdlEntryItem {
    type V = EntryV;

    open spec fn view(&self) -> EntryV {
        EntryV {
            name: match self.name {
                Some(n) => Some(n@),
                None => None,
            },
            value: self.value@,
        }
    }
}

pub open spec fn empty_item_v() -> KdlItemV {
    KdlItemV { name: Seq::empty(), entries: Seq::empty(), children: None }
}

pub open spec fn item_view(it: KdlItem) -> KdlItemV
    decreases it,
{
    KdlItemV {
        name: it.name@,
        entries: it.entries@.map_values(|e: KdlEntryItem| e@),
        children: match it.children {
            Some(cs) => Some(
                Seq::new(
                    cs@.len(),
                    |i: int|
                        if 0 <= i < cs@.len() {
                            item_view(cs@[i])
                        } else {
                            empty_item_v()
                        },
                ),
            ),
            None => None,
        },
    }
}

impl View for KdlItem {
    type V = KdlItemV;

    open spec fn view(&self) -> KdlItemV {
        item_view(*self)
    }
}

pub open spec fn items_view(items: Seq<KdlItem>) -> Seq<KdlItemV> {
    items.map_values(|it: KdlItem| it@)
}

/// What the `kdl` crate parses `text` into (`KdlDocument::parse`), `None`
/// where it reports a syntax error.
pub uninterp spec fn kdl_parse(text: Seq<char>) -> Option<Seq<KdlItemV>>;

/// The text the `kdl` crate writes for a document (`KdlDocument`'s `Display`).
pub uninterp spec fn kdl_render(items: Seq<KdlItemV>) -> Seq<char>;

/// Parse `input` with the `kdl` crate (`KdlDocument::parse`, through
/// `FromStr`) and mirror the resulting nodes into `KdlItem`s.
/// Claims only that the result is what the crate parses, and that an error
/// comes exactly when the crate reports one.
#[verifier::external_body]
fn kdl_parse_items(input: &str) -> (r: Result<Vec<KdlItem>, String>)
    ensures
        match r {
            Ok(items) => kdl_parse(input@) == Some(items_view(items@)),
            Err(_) => kdl_parse(input@) is None,
        },
{
    match input.parse::<kdl::KdlDocument>() {
        Ok(doc) => Ok(doc.nodes().iter().map(kdl_item_from_node).collect()),
        Err(e) => Err(format!("{}", e)),
    }
}

/// One-for-one mirror of a `kdl::KdlNode` (name, entries in order, children).
#[verifier::external_body]
fn kdl_item_from_node(node: &kdl::KdlNode) -> KdlItem {
    KdlItem {
        name: node.name().value().to_string(),
        entries: node.entries().iter().map(|e| KdlEntryItem {
            name: e.name().map(|n| n.value().to_string()),
            value: kdl_scalar_from_value(e.value()),
        }).collect(),
        children: node.children().map(|d| d.nodes().iter().map(kdl_item_from_node).collect()),
    }
}

/// One-for-one mirror of a `kdl::KdlValue`; a float is kept as is, with its bit pattern.
#[verifier::external_body]
fn kdl_scalar_from_value(v: &kdl::KdlValue) -> KdlScalar {
    match v {
        kdl::KdlValue::String(s) => KdlScalar::Str(s.clone()),
        kdl::KdlValue::Integer(i) => KdlScalar::Int(*i),
        kdl::KdlValue::Float(f) => KdlScalar::Float(KdlFloat { kept: v.clone(), bits: f.to_bits() }),
        kdl::KdlValue::Bool(b) => KdlScalar::Bool(*b),
        kdl::KdlValue::Null => KdlScalar::Null,
    }
}

/// Build a `kdl::KdlDocument` from the mirrored nodes and write it out with
/// the crate's `Display`. Claims only that the text is what the crate writes.
#[verifier::external_body]
fn kdl_render_items(items: &Vec<KdlItem>) -> (r: String)
    ensures
        r@ == kdl_render(items_view(items@)),
{
    let mut doc = kdl::KdlDocument::new();
    doc.nodes_mut().extend(items.iter().map(kdl_node_from_item));
    doc.to_string()
}

/// One-for-one: a `kdl::KdlNode` with the item's name, entries and children.
#[verifier::external_body]
fn kdl_node_from_item(item: &KdlItem) -> kdl::KdlNode {
    let mut node = kdl::KdlNode::new(item.name.as_str());
    node.entries_mut().extend(item.entries.iter().map(|e| match &e.name {
        Some(k) => kdl::KdlEntry::new_prop(k.as_str(), kdl_value_from_scalar(&e.value)),
        None => kdl::KdlEntry::new(kdl_value_from_scalar(&e.value)),
    }));
    if let Some(children) = &item.children {
        let mut doc = kdl::KdlDocument::new();
        doc.nodes_mut().extend(children.iter().map(kdl_node_from_item));
        node.set_children(doc);
    }
    node
}

/// One-for-one: the `kdl::KdlValue` a mirrored value stands for.
#[verifier::external_body]
fn kdl_value_from_scalar(s: &KdlScalar) -> kdl::KdlValue {
    match s {
        KdlScalar::Str(v) => kdl::KdlValue::String(v.clone()),
        KdlScalar::Int(i) => kdl::KdlValue::Integer(*i),
        KdlScalar::Float(f) => f.kept.clone(),
        KdlScalar::Bool(b) => kdl::KdlValue::Bool(*b),
        KdlScalar::Null => kdl::KdlValue::Null,
    }
}

// ── Converting between the mirror and the node tree ─────────────────────

/// The library's value for a value of the `kdl` crate: integers are
/// truncated to 64 bits, null reads as the empty string.
pub open spec fn value_of_scalar(s: ScalarV) -> ValueV {
    match s {
        ScalarV::Str(x) => ValueV::Str(x),
        ScalarV::Int(i) => ValueV::Int(i as i64),
        ScalarV::Float(b) => ValueV::Float(b),
        ScalarV::Bool(b) => ValueV::Bool(b),
        ScalarV::Null => ValueV::Str(Seq::empty()),
    }
}

/// The arguments (unnamed entries) of a node, in order.
pub open spec fn entry_args(es: Seq<EntryV>) -> Seq<ValueV>
    decreases es.len(),
{
    if es.len() == 0 {
        Seq::empty()
    } else {
        let rest = entry_args(es.drop_last());
        match es.last().name {
            None => rest.push(value_of_scalar(es.last().value)),
            Some(_) => rest,
        }
    }
}

/// The properties (named entries) of a node, in order.
pub open spec fn entry_props(es: Seq<EntryV>) -> Seq<(Seq<char>, ValueV)>
    decreases es.len(),
{
    if es.len() == 0 {
        Seq::empty()
    } else {
        let rest = entry_props(es.drop_last());
        match es.last().name {
            Some(k) => rest.push((k, value_of_scalar(es.last().value))),
            None => rest,
        }
    }
}

/// The node tree for a mirrored `kdl` node.
pub open spec fn node_of_item(it: KdlItemV) -> NodeV
    decreases it,
{
    NodeV {
        name: it.name,
        args: entry_args(it.entries),
        props: entry_props(it.entries),
        children: match it.children {
            Some(cs) => Seq::new(
                cs.len(),
                |i: int|
                    if 0 <= i < cs.len() {
                        node_of_item(cs[i])
                    } else {
                        empty_node_v()
                    },
            ),
            None => Seq::empty(),
        },
    }
}

/// The `kdl` value a library value is written as.
pub open spec fn scalar_of_value(v: ValueV) -> ScalarV {
    match v {
        ValueV::Str(x) => ScalarV::Str(x),
        ValueV::Int(i) => ScalarV::Int(i as i128),
        ValueV::Float(b) => ScalarV::Float(b),
        ValueV::Bool(b) => ScalarV::Bool(b),
    }
}

/// The `kdl` node a library node is written as: arguments first, then
/// properties; children only when there are any.
pub open spec fn item_of_node(n: NodeV) -> KdlItemV
    decreases n,
{
    KdlItemV {
        name: n.name,
        entries: n.args.map_values(|a: ValueV| EntryV { name: None, value: scalar_of_value(a) })
            + n.props.map_values(
            |p: (Seq<char>, ValueV)| EntryV { name: Some(p.0), value: scalar_of_value(p.1) },
        ),
        children: if n.children.len() == 0 {
            None
        } else {
            Some(
                Seq::new(
                    n.children.len(),
                    |i: int|
                        if 0 <= i < n.children.len() {
                            item_of_node(n.children[i])
                        } else {
                            empty_item_v()
                        },
                ),
            )
        },
    }
}

/// The entries a node's arguments are written as.
pub open spec fn arg_entries(a: Seq<ValueV>) -> Seq<EntryV> {
    a.map_values(|v: ValueV| EntryV { name: None, value: scalar_of_value(v) })
}

/// The entries a node's properties are written as.
pub open spec fn prop_entries(p: Seq<(Seq<char>, ValueV)>) -> Seq<EntryV> {
    p.map_values(|e: (Seq<char>, ValueV)| EntryV { name: Some(e.0), value: scalar_of_value(e.1) })
}

/// Writing a value and reading it back gives the value.
pub proof fn lemma_scalar_round_trip(v: ValueV)
    ensures
        value_of_scalar(scalar_of_value(v)) == v,
{
    match v {
        ValueV::Int(i) => {
            assert(((i as i128) as i64) == i);
        },
        _ => {},
    }
}

proof fn lemma_entry_args_of_args(a: Seq<ValueV>)
    ensures
        entry_args(arg_entries(a)) == a,
        entry_props(arg_entries(a)) == Seq::<(Seq<char>, ValueV)>::empty(),
    decreases a.len(),
{
    if a.len() > 0 {
        assert(arg_entries(a).drop_last() =~= arg_entries(a.drop_last()));
        lemma_entry_args_of_args(a.drop_last());
        lemma_scalar_round_trip(a.last());
        assert(a.drop_last().push(a.last()) =~= a);
    } else {
        assert(arg_entries(a) =~= Seq::<EntryV>::empty());
        assert(a =~= Seq::<ValueV>::empty());
    }
}

proof fn lemma_entries_split(a: Seq<ValueV>, p: Seq<(Seq<char>, ValueV)>)
    ensures
        entry_args(arg_entries(a) + prop_entries(p)) == a,
        entry_props(arg_entries(a) + prop_entries(p)) == p,
    decreases p.len(),
{
    if p.len() == 0 {
        assert(arg_entries(a) + prop_entries(p) =~= arg_entries(a));
        assert(p =~= Seq::<(Seq<char>, ValueV)>::empty());
        lemma_entry_args_of_args(a);
    } else {
        let es = arg_entries(a) + prop_entries(p);
        assert(es.drop_last() =~= arg_entries(a) + prop_entries(p.drop_last()));
        lemma_entries_split(a, p.drop_last());
        lemma_scalar_round_trip(p.last().1);
        assert(p.drop_last().push((p.last().0, p.last().1)) =~= p);
    }
}

/// Writing a node as a `kdl` node and reading that back gives the node:
/// arguments, properties and children all come back as they were.
pub proof fn lemma_node_item_round_trip(n: NodeV)
    ensures
        node_of_item(item_of_node(n)) == n,
    decreases n,
{
    let it = item_of_node(n);
    assert(it.entries == arg_entries(n.args) + prop_entries(n.props));
    lemma_entries_split(n.args, n.props);
    let back = node_of_item(it);
    if n.children.len() == 0 {
        assert(back.children =~= n.children);
    } else {
        assert forall|i: int| 0 <= i < n.children.len() implies #[trigger] back.children[i] == n.children[i] by {
            lemma_node_item_round_trip(n.children[i]);
        }
        assert(back.children =~= n.children);
    }
}

fn clone_float(f: &KdlFloat) -> (r: KdlFloat)
    ensures
        r.spec_bits() == f.spec_bits(),
{
    KdlFloat { kept: f.kept.clone(), bits: f.bits }
}

fn convert_value_from_kdl(val: &KdlScalar) -> (r: NodeValue)
    ensures
        r@ == value_of_scalar(val@),
{
    match val {
        KdlScalar::Str(s) => NodeValue::Str(s.clone()),
        KdlScalar::Int(i) => NodeValue::Int(*i as i64),
        KdlScalar::Float(f) => NodeValue::Float(clone_float(f)),
        KdlScalar::Bool(b) => NodeValue::Bool(*b),
        KdlScalar::Null => NodeValue::Str(String::new()),
    }
}

fn convert_node_from_kdl(item: &KdlItem) -> (r: Node)
    ensures
        r@ == node_of_item(item@),
    decreases item,
{
    let name = item.name.clone();
    let mut args: Vec<NodeValue> = Vec::new();
    let mut props: Vec<(String, NodeValue)> = Vec::new();
    let ghost es = item@.entries;
    let mut i: usize = 0;
    while i < item.entries.len()
        invariant
            i <= item.entries.len(),
            es == item.entries@.map_values(|e: KdlEntryItem| e@),
            values_view(args@) == entry_args(es.take(i as int)),
            props_view(props@) == entry_props(es.take(i as int)),
        decreases item.entries.len() - i,
    {
        let e = &item.entries[i];
        proof {
            assert(es.take(i + 1).drop_last() =~= es.take(i as int));
            assert(es.take(i + 1).last() == e@);
        }
        match &e.name {
            Some(id) => {
                let v = convert_value_from_kdl(&e.value);
                props.push((id.clone(), v));
                proof {
                    assert(props_view(props@) =~= entry_props(es.take(i as int)).push(
                        (id@, value_of_scalar(e.value@)),
                    ));
                }
            },
            None => {
                let v = convert_value_from_kdl(&e.value);
                args.push(v);
                proof {
                    assert(values_view(args@) =~= entry_args(es.take(i as int)).push(
                        value_of_scalar(e.value@),
                    ));
                }
            },
        }
        i += 1;
    }
    proof {
        assert(es.take(item.entries.len() as int) =~= es);
    }
    let mut children: Vec<Node> = Vec::new();
    match &item.children {
        Some(cs) => {
            let mut j: usize = 0;
            while j < cs.len()
                invariant
                    j <= cs.len(),
                    item.children == Some(*cs),
                    children@.len() == j,
                    forall|k: int| 0 <= k < j ==> #[trigger] children@[k]@ == node_of_item(cs@[k]@),
                decreases cs.len() - j,
            {
                proof {
                    assert(decreases_to!(item => item.children));
                    assert(decreases_to!(item.children => item.children->0));
                    assert(decreases_to!(item.children->0 => item.children->0@));
                    assert(decreases_to!(item.children->0@ => item.children->0@[j as int]));
                }
                let c = convert_node_from_kdl(&cs[j]);
                children.push(c);
                j += 1;
            }
        },
        None => {},
    }
    let r = Node { name, args, props, children };
    proof {
        let want = node_of_item(item@).children;
        match &item.children {
            Some(cs) => {
                assert(item@.children == Some(cs@.map_values(|c: KdlItem| c@))) by {
                    assert(Seq::new(cs@.len(), |i: int| if 0 <= i < cs@.len() { item_view(cs@[i]) } else { empty_item_v() }) =~= cs@.map_values(|c: KdlItem| c@));
                }
                assert forall|k: int| 0 <= k < want.len() implies #[trigger] r@.children[k] == want[k] by {
                    assert(r@.children[k] == children@[k]@);
                }
                assert(r@.children =~= want);
            },
            None => {
                assert(r@.children =~= want);
            },
        }
    }
    r
}

fn to_kdl(v: &NodeValue) -> (r: KdlScalar)
    ensures
        r@ == scalar_of_value(v@),
{
    match v {
        NodeValue::Str(s) => KdlScalar::Str(s.clone()),
        NodeValue::Int(i) => KdlScalar::Int(*i as i128),
        NodeValue::Float(f) => KdlScalar::Float(clone_float(f)),
        NodeValue::Bool(b) => KdlScalar::Bool(*b),
    }
}

fn convert_node_to_kdl(node: &Node) -> (r: KdlItem)
    ensures
        r@ == item_of_node(node@),
    decreases node,
{
    let mut entries: Vec<KdlEntryItem> = Vec::new();
    let ghost n = node@;
    let mut i: usize = 0;
    while i < node.args.len()
        invariant
            i <= node.args.len(),
            n == node@,
            entries@.len() == i,
            entries@.map_values(|e: KdlEntryItem| e@) == n.args.take(i as int).map_values(
                |a: ValueV| EntryV { name: None, value: scalar_of_value(a) },
            ),
        decreases node.args.len() - i,
    {
        let s = to_kdl(&node.args[i]);
        let ghost before = entries@;
        entries.push(KdlEntryItem { name: None, value: s });
        i += 1;
        proof {
            assert(n.args[i - 1] == node.args@[i - 1]@);
            assert(entries@ == before.push(entries@[i - 1]));
            assert(entries@[i - 1]@ == EntryV { name: None, value: scalar_of_value(n.args[i - 1]) });
            assert(n.args.take(i as int) == n.args.take(i - 1).push(n.args[i - 1]));
            let lhs = entries@.map_values(|e: KdlEntryItem| e@);
            let rhs = n.args.take(i as int).map_values(
                |a: ValueV| EntryV { name: None, value: scalar_of_value(a) },
            );
            let lhs0 = before.map_values(|e: KdlEntryItem| e@);
            let rhs0 = n.args.take(i - 1).map_values(
                |a: ValueV| EntryV { name: None, value: scalar_of_value(a) },
            );
            assert(lhs0 == rhs0);
            assert forall|k: int| 0 <= k < lhs.len() implies lhs[k] == rhs[k] by {
                if k < i - 1 {
                    assert(lhs0[k] == rhs0[k]);
                    assert(lhs[k] == lhs0[k]);
                    assert(rhs[k] == rhs0[k]);
                }
            }
            assert(lhs =~= rhs);
        }
    }
    let mut j: usize = 0;
    while j < node.props.len()
        invariant
            j <= node.props.len(),
            n == node@,
            entries@.len() == node.args.len() + j,
            entries@.map_values(|e: KdlEntryItem| e@) == n.args.map_values(
                |a: ValueV| EntryV { name: None, value: scalar_of_value(a) },
            ) + n.props.take(j as int).map_values(
                |p: (Seq<char>, ValueV)| EntryV { name: Some(p.0), value: scalar_of_value(p.1) },
            ),
        decreases node.props.len() - j,
    {
        let s = to_kdl(&node.props[j].1);
        let k = node.props[j].0.clone();
        let ghost before = entries@;
        entries.push(KdlEntryItem { name: Some(k), value: s });
        j += 1;
        proof {
            assert(n.props[j - 1] == (node.props@[j - 1].0@, node.props@[j - 1].1@));
            assert(entries@ == before.push(entries@[before.len() as int]));
            assert(n.args.len() == node.args.len());
            assert(entries@[before.len() as int]@ == EntryV {
                name: Some(n.props[j - 1].0),
                value: scalar_of_value(n.props[j - 1].1),
            });
            assert(n.props.take(j as int) == n.props.take(j - 1).push(n.props[j - 1]));
            let a = n.args.map_values(|a: ValueV| EntryV { name: None, value: scalar_of_value(a) });
            let lhs = entries@.map_values(|e: KdlEntryItem| e@);
            let rhs = a + n.props.take(j as int).map_values(
                |p: (Seq<char>, ValueV)| EntryV { name: Some(p.0), value: scalar_of_value(p.1) },
            );
            let lhs0 = before.map_values(|e: KdlEntryItem| e@);
            let rhs0 = a + n.props.take(j - 1).map_values(
                |p: (Seq<char>, ValueV)| EntryV { name: Some(p.0), value: scalar_of_value(p.1) },
            );
            assert(lhs0 == rhs0);
            assert forall|k: int| 0 <= k < lhs.len() implies lhs[k] == rhs[k] by {
                if k < before.len() {
                    assert(lhs0[k] == rhs0[k]);
                    assert(lhs[k] == lhs0[k]);
                    assert(rhs[k] == rhs0[k]);
                }
            }
            assert(lhs =~= rhs);
        }
    }
    proof {
        assert(n.args.take(node.args.len() as int) =~= n.args);
        assert(n.props.take(node.props.len() as int) =~= n.props);
    }
    let mut cs: Vec<KdlItem> = Vec::new();
    let mut k: usize = 0;
    while k < node.children.len()
        invariant
            k <= node.children.len(),
            cs@.len() == k,
            forall|t: int| 0 <= t < k ==> #[trigger] cs@[t]@ == item_of_node(node.children@[t]@),
        decreases node.children.len() - k,
    {
        let c = convert_node_to_kdl(&node.children[k]);
        cs.push(c);
        k += 1;
    }
    let ghost csv = cs@;
    let children = if node.children.len() == 0 {
        None
    } else {
        Some(cs)
    };
    let r = KdlItem { name: node.name.clone(), entries, children };
    proof {
        if node.children.len() > 0 {
            let got = r@.children->0;
            let want = item_of_node(n).children->0;
            assert forall|k: int| 0 <= k < want.len() implies #[trigger] got[k] == want[k] by {
                assert(n.children[k] == node.children@[k]@);
                assert(want[k] == item_of_node(n.children[k]));
                assert(got[k] == item_view(csv[k]));
                assert(csv[k]@ == item_of_node(node.children@[k]@));
            }
            assert(got =~= want);
        }
    }
    r
}

/// Parse a KDL string into a Document using the `kdl` crate.
pub fn parse(input: &str) -> (r: Result<Document, String>)
    ensures
        match r {
            Ok(doc) => kdl_parse(input@) matches Some(items) && doc@ == items.map_values(
                |it: KdlItemV| node_of_item(it),
            ),
            Err(_) => kdl_parse(input@) is None,
        },
{
    let items = kdl_parse_items(input)?;
    let mut nodes: Vec<Node> = Vec::new();
    let mut i: usize = 0;
    while i < items.len()
        invariant
            i <= items.len(),
            nodes@.len() == i,
            forall|k: int| 0 <= k < i ==> #[trigger] nodes@[k]@ == node_of_item(items@[k]@),
        decreases items.len() - i,
    {
        nodes.push(convert_node_from_kdl(&items[i]));
        i += 1;
    }
    let doc = Document { nodes };
    proof {
        assert(doc@ =~= items_view(items@).map_values(|it: KdlItemV| node_of_item(it)));
    }
    Ok(doc)
}

/// Emit a Document back to KDL text using the `kdl` crate.
pub fn dump(doc: &Document) -> (r: String)
    ensures
        r@ == kdl_render(doc@.map_values(|n: NodeV| item_of_node(n))),
{
    let mut items: Vec<KdlItem> = Vec::new();
    let mut i: usize = 0;
    while i < doc.nodes.len()
        invariant
            i <= doc.nodes.len(),
            items@.len() == i,
            forall|k: int| 0 <= k < i ==> #[trigger] items@[k]@ == item_of_node(doc.nodes@[k]@),
        decreases doc.nodes.len() - i,
    {
        items.push(convert_node_to_kdl(&doc.nodes[i]));
        i += 1;
    }
    proof {
        assert(items_view(items@) =~= doc@.map_values(|n: NodeV| item_of_node(n)));
    }
    kdl_render_items(&items)
}

} // verus!
