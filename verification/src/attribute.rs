//! Named attributes, attribute groups and the ordered group container.
//!
//! An attribute is a non-empty name and one or more ordered values.  A
//! group is a delimiter tag and an insertion-ordered list of attributes
//! with pairwise distinct names.  A message carries an ordered sequence
//! of groups; groups of the same delimiter may repeat, and their order
//! and multiplicity are preserved.

use vstd::prelude::*;

use crate::model::{is_group_delimiter, DelimiterTag};
use crate::value::{wf_value, IppValue, ValueV};

verus! {

/// The models of a sequence of values.
pub open spec fn value_views(s: Seq<IppValue>) -> Seq<ValueV> {
    s.map_values(|v: IppValue| v@)
}

/// The models of a sequence of attributes.
pub open spec fn attr_views(s: Seq<IppAttribute>) -> Seq<AttrV> {
    s.map_values(|a: IppAttribute| a@)
}

/// The models of a sequence of groups.
pub open spec fn group_views(s: Seq<IppAttributeGroup>) -> Seq<GroupV> {
    s.map_values(|g: IppAttributeGroup| g@)
}

/// A named attribute: one or more ordered values.
#[derive(Clone, PartialEq, Eq, Debug)]
pub struct IppAttribute {
    pub name: Vec<u8>,
    pub values: Vec<IppValue>,
}

/// The mathematical model of an [`IppAttribute`].
#[verifier::ext_equal]
pub ghost struct AttrV {
    pub name: Seq<u8>,
    pub values: Seq<ValueV>,
}

impl View for IppAttribute {
    type V = AttrV;

    open spec fn view(&self) -> AttrV {
        AttrV { name: self.name@, values: value_views(self.values@) }
    }
}

/// An attribute the codec can emit: the name is non-empty (an empty
/// name on the wire marks a continuation value, not an attribute) and
/// fits its length prefix, and there is at least one well-formed value.
pub open spec fn wf_attr(a: AttrV) -> bool {
    &&& 1 <= a.name.len() <= 0xFFFF
    &&& a.values.len() >= 1
    &&& forall|i: int| 0 <= i < a.values.len() ==> wf_value(#[trigger] a.values[i])
}

impl IppAttribute {
    /// A single-valued attribute.
    pub fn new(name: Vec<u8>, value: IppValue) -> (r: IppAttribute)
        ensures
            r@.name == name@,
            r@.values == seq![value@],
    {
        let values: Vec<IppValue> = vec![value];
        let r = IppAttribute { name, values };
        proof {
            assert(r@.values =~= seq![value@]);
        }
        r
    }

    /// A multi-valued attribute; `values` keeps its order.
    pub fn with_values(name: Vec<u8>, values: Vec<IppValue>) -> (r: IppAttribute)
        ensures
            r@.name == name@,
            r@.values == value_views(values@),
    {
        IppAttribute { name, values }
    }

    /// The attribute's name.
    pub fn name(&self) -> (r: &Vec<u8>)
        ensures
            r@ == self@.name,
    {
        &self.name
    }

    /// The attribute's first value.
    pub fn value(&self) -> (r: &IppValue)
        requires
            self@.values.len() >= 1,
        ensures
            r@ == self@.values[0],
    {
        &self.values[0]
    }

    /// All values, in order.
    pub fn values(&self) -> (r: &Vec<IppValue>)
        ensures
            value_views(r@) == self@.values,
    {
        &self.values
    }

    /// Whether the attribute is well-formed.
    pub fn is_well_formed(&self) -> (r: bool)
        ensures
            r == wf_attr(self@),
    {
        if self.name.len() < 1 || self.name.len() > 0xFFFF || self.values.len() < 1 {
            return false;
        }
        let n: usize = self.values.len();
        let mut i: usize = 0;
        while i < n
            invariant
                i <= n,
                n == self@.values.len(),
                forall|j: int| 0 <= j < i ==> wf_value(#[trigger] self@.values[j]),
            decreases n - i,
        {
            if !self.values[i].is_well_formed() {
                proof {
                    assert(!wf_value(self@.values[i as int]));
                }
                return false;
            }
            i = i + 1;
        }
        true
    }
}

/// A delimiter tag and the attributes that follow it, in insertion
/// order.
#[derive(Clone, PartialEq, Eq, Debug)]
pub struct IppAttributeGroup {
    pub tag: u8,
    pub attributes: Vec<IppAttribute>,
}

/// The mathematical model of an [`IppAttributeGroup`].
#[verifier::ext_equal]
pub ghost struct GroupV {
    pub tag: u8,
    pub attributes: Seq<AttrV>,
}

impl View for IppAttributeGroup {
    type V = GroupV;

    open spec fn view(&self) -> GroupV {
        GroupV { tag: self.tag, attributes: attr_views(self.attributes@) }
    }
}

/// Whether all attribute names in `s` are pairwise distinct.
pub open spec fn distinct_names(s: Seq<AttrV>) -> bool {
    forall|i: int, j: int| 0 <= i < j < s.len() ==> s[i].name != s[j].name
}

/// Whether some attribute in `s` bears `name`.
pub open spec fn has_name(s: Seq<AttrV>, name: Seq<u8>) -> bool {
    exists|i: int| 0 <= i < s.len() && s[i].name == name
}

/// A group the codec can emit: a group delimiter, distinct names, and
/// well-formed attributes.
pub open spec fn wf_group(g: GroupV) -> bool {
    &&& is_group_delimiter(g.tag)
    &&& distinct_names(g.attributes)
    &&& forall|i: int| 0 <= i < g.attributes.len() ==> wf_attr(#[trigger] g.attributes[i])
}

impl IppAttributeGroup {
    /// An empty group under `tag`.
    pub fn new(tag: u8) -> (r: IppAttributeGroup)
        ensures
            r@.tag == tag,
            r@.attributes == Seq::<AttrV>::empty(),
    {
        let r = IppAttributeGroup { tag, attributes: Vec::new() };
        proof {
            assert(r@.attributes =~= Seq::<AttrV>::empty());
        }
        r
    }

    /// The index of the first attribute named `name`, if any.
    pub fn find_attribute(&self, name: &Vec<u8>) -> (r: Option<usize>)
        ensures
            match r {
                Some(i) => i < self@.attributes.len() && self@.attributes[i as int].name == name@
                    && forall|j: int| 0 <= j < i ==> self@.attributes[j].name != name@,
                None => !has_name(self@.attributes, name@),
            },
    {
        let n: usize = self.attributes.len();
        let mut i: usize = 0;
        while i < n
            invariant
                i <= n,
                n == self@.attributes.len(),
                forall|j: int| 0 <= j < i ==> self@.attributes[j].name != name@,
            decreases n - i,
        {
            if bytes_eq(&self.attributes[i].name, name) {
                return Some(i);
            }
            i = i + 1;
        }
        None
    }

    /// The attribute at index `i`.
    pub fn attribute_at(&self, i: usize) -> (r: &IppAttribute)
        requires
            i < self@.attributes.len(),
        ensures
            r@ == self@.attributes[i as int],
    {
        &self.attributes[i]
    }

    /// How many attributes the group holds.
    pub fn len(&self) -> (r: usize)
        ensures
            r == self@.attributes.len(),
    {
        self.attributes.len()
    }
}

/// Whether two byte vectors hold the same bytes.
pub fn bytes_eq(a: &Vec<u8>, b: &Vec<u8>) -> (r: bool)
    ensures
        r == (a@ == b@),
{
    if a.len() != b.len() {
        proof {
            assert(a@ != b@);
        }
        return false;
    }
    let n: usize = a.len();
    let mut i: usize = 0;
    while i < n
        invariant
            i <= n,
            n == a@.len() == b@.len(),
            forall|j: int| 0 <= j < i ==> a@[j] == b@[j],
        decreases n - i,
    {
        if a[i] != b[i] {
            return false;
        }
        i = i + 1;
    }
    proof {
        assert(a@ =~= b@);
    }
    true
}

/// The ordered attribute groups of a message.
#[derive(Clone, PartialEq, Eq, Debug)]
pub struct IppAttributes {
    pub groups: Vec<IppAttributeGroup>,
}

impl View for IppAttributes {
    type V = Seq<GroupV>;

    open spec fn view(&self) -> Seq<GroupV> {
        group_views(self.groups@)
    }
}

/// Whether every group is well-formed.
pub open spec fn wf_groups(gs: Seq<GroupV>) -> bool {
    forall|i: int| 0 <= i < gs.len() ==> wf_group(#[trigger] gs[i])
}

/// Inserting `a` into an attribute list: the first attribute of the
/// same name is replaced in place; otherwise `a` goes to the end.
pub open spec fn add_attr_list(attrs: Seq<AttrV>, a: AttrV) -> Seq<AttrV>
    decreases attrs.len(),
{
    if attrs.len() == 0 {
        seq![a]
    } else if attrs[0].name == a.name {
        seq![a] + attrs.skip(1)
    } else {
        seq![attrs[0]] + add_attr_list(attrs.skip(1), a)
    }
}

/// Inserting `a` under `tag`: the first group with that delimiter takes
/// the attribute; if none exists a new group is appended.
pub open spec fn add_attr_groups(gs: Seq<GroupV>, tag: u8, a: AttrV) -> Seq<GroupV>
    decreases gs.len(),
{
    if gs.len() == 0 {
        seq![GroupV { tag, attributes: seq![a] }]
    } else if gs[0].tag == tag {
        seq![GroupV { tag, attributes: add_attr_list(gs[0].attributes, a) }] + gs.skip(1)
    } else {
        seq![gs[0]] + add_attr_groups(gs.skip(1), tag, a)
    }
}

impl IppAttributes {
    /// An empty container.
    pub fn new() -> (r: IppAttributes)
        ensures
            r@ == Seq::<GroupV>::empty(),
    {
        let r = IppAttributes { groups: Vec::new() };
        proof {
            assert(r@ =~= Seq::<GroupV>::empty());
        }
        r
    }

    /// How many groups the container holds.
    pub fn len(&self) -> (r: usize)
        ensures
            r == self@.len(),
    {
        self.groups.len()
    }

    /// The group at index `i`.
    pub fn group_at(&self, i: usize) -> (r: &IppAttributeGroup)
        requires
            i < self@.len(),
        ensures
            r@ == self@[i as int],
    {
        &self.groups[i]
    }

    /// The index of the first group under `tag` at or after `from`, if
    /// any.
    pub fn find_group_from(&self, tag: u8, from: usize) -> (r: Option<usize>)
        ensures
            match r {
                Some(i) => from <= i < self@.len() && self@[i as int].tag == tag && forall|j: int|
                    from <= j < i ==> self@[j].tag != tag,
                None => forall|j: int| from <= j < self@.len() ==> self@[j].tag != tag,
            },
    {
        let n: usize = self.groups.len();
        let mut i: usize = from;
        while i < n
            invariant
                from <= i <= n || (from >= n && i == from),
                n == self@.len(),
                forall|j: int| from <= j < i ==> self@[j].tag != tag,
            decreases n - i,
        {
            if self.groups[i].tag == tag {
                return Some(i);
            }
            i = i + 1;
        }
        None
    }

    /// Inserts `attribute` under the group delimiter `tag`, creating
    /// the group at the end on first use and replacing an attribute of
    /// the same name in place.
    pub fn add(&mut self, tag: DelimiterTag, attribute: IppAttribute)
        ensures
            final(self)@ == add_attr_groups(old(self)@, tag.spec_as_u8(), attribute@),
    {
        let t = tag.as_u8();
        let ghost gs = self@;
        let ghost a = attribute@;
        match self.find_group_from(t, 0) {
            None => {
                proof {
                    lemma_add_attr_groups_absent(gs, t, a);
                }
                let mut attrs: Vec<IppAttribute> = Vec::new();
                attrs.push(attribute);
                let g = IppAttributeGroup { tag: t, attributes: attrs };
                proof {
                    assert(g@.attributes =~= seq![a]);
                }
                self.groups.push(g);
                proof {
                    assert(self@ =~= gs.push(GroupV { tag: t, attributes: seq![a] }));
                    assert(self@ =~= add_attr_groups(gs, t, a));
                }
            },
            Some(i) => {
                proof {
                    lemma_add_attr_groups_found(gs, t, a, i as int);
                }
                let group = &mut self.groups[i];
                let ghost attrs0 = group@.attributes;
                match group.find_attribute(&attribute.name) {
                    None => {
                        proof {
                            lemma_add_attr_list_absent(attrs0, a);
                        }
                        group.attributes.push(attribute);
                        proof {
                            assert(group@.attributes =~= attrs0.push(a));
                            assert(attrs0.push(a) =~= add_attr_list(attrs0, a));
                        }
                    },
                    Some(j) => {
                        proof {
                            lemma_add_attr_list_found(attrs0, a, j as int);
                        }
                        group.attributes.set(j, attribute);
                        proof {
                            assert(group@.attributes =~= attrs0.update(j as int, a));
                            assert(attrs0.update(j as int, a) =~= add_attr_list(attrs0, a));
                        }
                    },
                }
                proof {
                    assert(self@ =~= gs.update(
                        i as int,
                        GroupV { tag: t, attributes: add_attr_list(attrs0, a) },
                    ));
                    assert(self@ =~= add_attr_groups(gs, t, a));
                }
            },
        }
    }
}

/// When no group bears `tag`, inserting appends a fresh group.
pub proof fn lemma_add_attr_groups_absent(gs: Seq<GroupV>, tag: u8, a: AttrV)
    requires
        forall|j: int| 0 <= j < gs.len() ==> gs[j].tag != tag,
    ensures
        add_attr_groups(gs, tag, a) == gs.push(GroupV { tag, attributes: seq![a] }),
    decreases gs.len(),
{
    if gs.len() == 0 {
        assert(add_attr_groups(gs, tag, a) =~= gs.push(GroupV { tag, attributes: seq![a] }));
    } else {
        lemma_add_attr_groups_absent(gs.skip(1), tag, a);
        assert(seq![gs[0]] + gs.skip(1).push(GroupV { tag, attributes: seq![a] }) =~= gs.push(
            GroupV { tag, attributes: seq![a] },
        ));
    }
}

/// When `i` is the first group under `tag`, inserting updates that
/// group in place.
pub proof fn lemma_add_attr_groups_found(gs: Seq<GroupV>, tag: u8, a: AttrV, i: int)
    requires
        0 <= i < gs.len(),
        gs[i].tag == tag,
        forall|j: int| 0 <= j < i ==> gs[j].tag != tag,
    ensures
        add_attr_groups(gs, tag, a) == gs.update(
            i,
            GroupV { tag, attributes: add_attr_list(gs[i].attributes, a) },
        ),
    decreases i,
{
    if i == 0 {
        assert(add_attr_groups(gs, tag, a) =~= gs.update(
            0,
            GroupV { tag, attributes: add_attr_list(gs[0].attributes, a) },
        ));
    } else {
        lemma_add_attr_groups_found(gs.skip(1), tag, a, i - 1);
        assert(seq![gs[0]] + gs.skip(1).update(
            i - 1,
            GroupV { tag, attributes: add_attr_list(gs.skip(1)[i - 1].attributes, a) },
        ) =~= gs.update(i, GroupV { tag, attributes: add_attr_list(gs[i].attributes, a) }));
    }
}

/// When no attribute bears the name, inserting appends.
pub proof fn lemma_add_attr_list_absent(attrs: Seq<AttrV>, a: AttrV)
    requires
        forall|j: int| 0 <= j < attrs.len() ==> attrs[j].name != a.name,
    ensures
        add_attr_list(attrs, a) == attrs.push(a),
    decreases attrs.len(),
{
    if attrs.len() == 0 {
        assert(add_attr_list(attrs, a) =~= attrs.push(a));
    } else {
        lemma_add_attr_list_absent(attrs.skip(1), a);
        assert(seq![attrs[0]] + attrs.skip(1).push(a) =~= attrs.push(a));
    }
}

/// When `j` is the first attribute of the name, inserting replaces it.
pub proof fn lemma_add_attr_list_found(attrs: Seq<AttrV>, a: AttrV, j: int)
    requires
        0 <= j < attrs.len(),
        attrs[j].name == a.name,
        forall|k: int| 0 <= k < j ==> attrs[k].name != a.name,
    ensures
        add_attr_list(attrs, a) == attrs.update(j, a),
    decreases j,
{
    if j == 0 {
        assert(add_attr_list(attrs, a) =~= attrs.update(0, a));
    } else {
        lemma_add_attr_list_found(attrs.skip(1), a, j - 1);
        assert(seq![attrs[0]] + attrs.skip(1).update(j - 1, a) =~= attrs.update(j, a));
    }
}

} // verus!
