//! Root resolution: finding the schema's subscription root type and the one
//! top-level field a subscription watches.
use vstd::prelude::*;
use crate::error::SubscriptionError;
use crate::text::same_name;

verus! {

/// The name of the schema's root subscription object type.
pub const SUBSCRIPTION_TYPE_NAME: &'static str = "Subscription";

/// An object type of the schema, with the names of its fields.
pub struct ObjectType {
    pub name: String,
    pub fields: Vec<String>,
}

/// The object types a schema document defines, in document order.
pub struct SchemaDocument {
    pub object_types: Vec<ObjectType>,
}

/// A top-level field selection of the subscription operation.
pub struct FieldSelection {
    /// The alias if one is given, else the field name.
    pub response_key: String,
    pub name: String,
    /// The value of the `if` argument of an `@skip` directive, if any.
    pub skip_if: Option<bool>,
    /// The value of the `if` argument of an `@include` directive, if any.
    pub include_if: Option<bool>,
}

impl FieldSelection {
    /// A field is selected unless `@skip(if: true)` or `@include(if: false)`
    /// excludes it.
    pub open spec fn spec_included(&self) -> bool {
        self.skip_if != Some(true) && self.include_if != Some(false)
    }

    #[verifier::when_used_as_spec(spec_included)]
    pub fn is_included(&self) -> (r: bool)
        ensures
            r == self.spec_included(),
    {
        let skipped = match self.skip_if {
            Some(b) => b,
            None => false,
        };
        let kept = match self.include_if {
            Some(b) => b,
            None => true,
        };
        kept && !skipped
    }
}

pub open spec fn is_root_type(t: ObjectType) -> bool {
    t.name@ == SUBSCRIPTION_TYPE_NAME@
}

/// Index of the first root subscription type among `types`, or
/// `types.len()` when there is none.
pub open spec fn first_root(types: Seq<ObjectType>) -> int
    decreases types.len(),
{
    if types.len() == 0 {
        0
    } else {
        let p = first_root(types.drop_last());
        if p < types.len() - 1 {
            p
        } else if is_root_type(types.last()) {
            types.len() - 1
        } else {
            types.len() as int
        }
    }
}

/// Index of the first included selection, or `sel.len()` when there is none.
pub open spec fn first_included(sel: Seq<FieldSelection>) -> int
    decreases sel.len(),
{
    if sel.len() == 0 {
        0
    } else {
        let p = first_included(sel.drop_last());
        if p < sel.len() - 1 {
            p
        } else if sel.last().is_included() {
            sel.len() - 1
        } else {
            sel.len() as int
        }
    }
}

/// The distinct response keys of the included selections, in order of
/// first appearance: the groups that field collection forms.
pub open spec fn grouped_keys(sel: Seq<FieldSelection>) -> Seq<Seq<char>>
    decreases sel.len(),
{
    if sel.len() == 0 {
        seq![]
    } else {
        let g = grouped_keys(sel.drop_last());
        let f = sel.last();
        if f.is_included() && !g.contains(f.response_key@) {
            g.push(f.response_key@)
        } else {
            g
        }
    }
}

/// What root resolution decides for a schema and a top-level selection:
/// the indices of the root type and of the watched field, or the error.
pub open spec fn root_resolution(types: Seq<ObjectType>, sel: Seq<FieldSelection>) -> Result<
    (int, int),
    SubscriptionError,
> {
    if first_root(types) == types.len() {
        Err(SubscriptionError::NoRootSubscriptionObjectType)
    } else if grouped_keys(sel).len() == 0 {
        Err(SubscriptionError::EmptyQuery)
    } else if grouped_keys(sel).len() > 1 {
        Err(SubscriptionError::MultipleSubscriptionFields)
    } else {
        Ok((first_root(types), first_included(sel)))
    }
}

/// Finds the first object type named `Subscription`.
pub fn find_root_subscription_type(schema: &SchemaDocument) -> (r: Option<usize>)
    ensures
        match r {
            Some(i) => i as int == first_root(schema.object_types@) && i
                < schema.object_types@.len(),
            None => first_root(schema.object_types@) == schema.object_types@.len(),
        },
{
    let types = &schema.object_types;
    let mut i: usize = 0;
    while i < types.len()
        invariant
            0 <= i <= types@.len(),
            types@ == schema.object_types@,
            first_root(types@.take(i as int)) == i,
        decreases types@.len() - i,
    {
        proof {
            assert(types@.take(i + 1).drop_last() =~= types@.take(i as int));
        }
        if same_name(types[i].name.as_str(), SUBSCRIPTION_TYPE_NAME) {
            proof {
                assert(types@.take(i + 1).last() == types@[i as int]);
                assert(first_root(types@.take(i + 1)) == i);
                lemma_first_root_prefix(types@, i as int);
            }
            return Some(i);
        }
        i = i + 1;
    }
    proof {
        assert(types@.take(i as int) =~= types@);
    }
    None
}

/// Once a prefix holds a root type, longer prefixes find the same one.
proof fn lemma_first_root_prefix(types: Seq<ObjectType>, i: int)
    requires
        0 <= i < types.len(),
        first_root(types.take(i + 1)) == i,
    ensures
        first_root(types) == i,
    decreases types.len() - i,
{
    if types.len() > i + 1 {
        let n = types.len() - 1;
        assert(types.drop_last() =~= types.take(n));
        assert(types.take(n).take(i + 1) =~= types.take(i + 1));
        lemma_first_root_prefix(types.take(n), i);
    } else {
        assert(types.take(i + 1) =~= types);
    }
}

/// Whether the response key of selection `i` already names one of the
/// groups formed from the selections before it.
fn key_already_grouped(selections: &Vec<FieldSelection>, firsts: &Vec<usize>, i: usize) -> (r:
    bool)
    requires
        i < selections@.len(),
        firsts@.len() == grouped_keys(selections@.take(i as int)).len(),
        forall|m: int|
            #![trigger firsts@[m]]
            0 <= m < firsts@.len() ==> firsts@[m] < selections@.len()
                && selections@[firsts@[m] as int].response_key@ == grouped_keys(
                selections@.take(i as int),
            )[m],
    ensures
        r == grouped_keys(selections@.take(i as int)).contains(selections@[i as int].response_key@),
{
    let ghost g = grouped_keys(selections@.take(i as int));
    let ghost key = selections@[i as int].response_key@;
    let mut k: usize = 0;
    let mut seen = false;
    while k < firsts.len()
        invariant
            k <= firsts@.len(),
            i < selections@.len(),
            firsts@.len() == g.len(),
            g == grouped_keys(selections@.take(i as int)),
            key == selections@[i as int].response_key@,
            forall|m: int|
                #![trigger firsts@[m]]
                0 <= m < firsts@.len() ==> firsts@[m] < selections@.len()
                    && selections@[firsts@[m] as int].response_key@ == g[m],
            seen ==> g.contains(key),
            !seen ==> forall|m: int| 0 <= m < k ==> g[m] != key,
        decreases firsts@.len() - k,
    {
        let f = firsts[k];
        if same_name(selections[f].response_key.as_str(), selections[i].response_key.as_str()) {
            proof {
                assert(g[k as int] == key);
            }
            seen = true;
        }
        k = k + 1;
    }
    seen
}

/// Groups the included selections by response key. For each group, in order
/// of first appearance, returns the index of its first selection.
pub fn collect_fields(selections: &Vec<FieldSelection>) -> (r: Vec<usize>)
    ensures
        r@.len() == grouped_keys(selections@).len(),
        forall|k: int|
            #![trigger r@[k]]
            0 <= k < r@.len() ==> {
                &&& r@[k] < selections@.len()
                &&& selections@[r@[k] as int].is_included()
                &&& selections@[r@[k] as int].response_key@ == grouped_keys(selections@)[k]
                &&& forall|j: int|
                    0 <= j < r@[k] ==> !(selections@[j].is_included()
                        && selections@[j].response_key@ == grouped_keys(selections@)[k])
            },
        forall|j: int|
            0 <= j < selections@.len() && selections@[j].is_included() ==> grouped_keys(
                selections@,
            ).contains(selections@[j].response_key@),
{
    let mut firsts: Vec<usize> = Vec::new();
    let mut i: usize = 0;
    while i < selections.len()
        invariant
            0 <= i <= selections@.len(),
            firsts@.len() == grouped_keys(selections@.take(i as int)).len(),
            forall|k: int|
                #![trigger firsts@[k]]
                0 <= k < firsts@.len() ==> {
                    &&& firsts@[k] < i
                    &&& selections@[firsts@[k] as int].is_included()
                    &&& selections@[firsts@[k] as int].response_key@ == grouped_keys(
                        selections@.take(i as int),
                    )[k]
                    &&& forall|j: int|
                        0 <= j < firsts@[k] ==> !(selections@[j].is_included()
                            && selections@[j].response_key@ == grouped_keys(
                            selections@.take(i as int),
                        )[k])
                },
            forall|j: int|
                0 <= j < i && selections@[j].is_included() ==> grouped_keys(
                    selections@.take(i as int),
                ).contains(selections@[j].response_key@),
        decreases selections@.len() - i,
    {
        let ghost g = grouped_keys(selections@.take(i as int));
        proof {
            assert(selections@.take(i + 1).drop_last() =~= selections@.take(i as int));
            assert(selections@.take(i + 1).last() == selections@[i as int]);
        }
        let ghost key = selections@[i as int].response_key@;
        let seen = key_already_grouped(selections, &firsts, i);
        if selections[i].is_included() && !seen {
            firsts.push(i);
            proof {
                let g2 = grouped_keys(selections@.take(i + 1));
                assert(g2 == g.push(key));
                assert forall|k: int| #![trigger firsts@[k]] 0 <= k < firsts@.len() implies {
                    &&& firsts@[k] < i + 1
                    &&& selections@[firsts@[k] as int].is_included()
                    &&& selections@[firsts@[k] as int].response_key@ == g2[k]
                    &&& forall|j: int|
                        0 <= j < firsts@[k] ==> !(selections@[j].is_included()
                            && selections@[j].response_key@ == g2[k])
                } by {
                    if k == firsts@.len() - 1 {
                        assert forall|j: int| 0 <= j < firsts@[k] implies !(
                        selections@[j].is_included() && selections@[j].response_key@ == g2[k]) by {
                            if selections@[j].is_included() && selections@[j].response_key@ == g2[k] {
                                assert(g.contains(key));
                            }
                        }
                    }
                }
                assert forall|j: int|
                    0 <= j < i + 1 && selections@[j].is_included() implies g2.contains(
                    selections@[j].response_key@,
                ) by {
                    if j == i {
                        assert(g2[g2.len() - 1] == key);
                    } else {
                        let w = choose|m: int| 0 <= m < g.len() && g[m] == selections@[j].response_key@;
                        assert(g2[w] == g[w]);
                    }
                }
            }
        } else {
            proof {
                assert(grouped_keys(selections@.take(i + 1)) == g);
            }
        }
        i = i + 1;
    }
    proof {
        assert(selections@.take(i as int) =~= selections@);
    }
    firsts
}

proof fn lemma_none_included(sel: Seq<FieldSelection>)
    requires
        forall|j: int| 0 <= j < sel.len() ==> !sel[j].is_included(),
    ensures
        first_included(sel) == sel.len(),
    decreases sel.len(),
{
    if sel.len() > 0 {
        lemma_none_included(sel.drop_last());
    }
}

proof fn lemma_first_included_at(sel: Seq<FieldSelection>, f: int)
    requires
        0 <= f < sel.len(),
        sel[f].is_included(),
        forall|j: int| 0 <= j < f ==> !sel[j].is_included(),
    ensures
        first_included(sel) == f,
    decreases sel.len(),
{
    if sel.len() - 1 > f {
        lemma_first_included_at(sel.drop_last(), f);
    } else {
        lemma_none_included(sel.drop_last());
    }
}

/// Decides, once for the subscription's lifetime, which root type and which
/// single top-level field it watches.
pub fn resolve_root_field(schema: &SchemaDocument, selections: &Vec<FieldSelection>) -> (r: Result<
    (usize, usize),
    SubscriptionError,
>)
    ensures
        match r {
            Ok((t, f)) => root_resolution(schema.object_types@, selections@) == Ok::<
                (int, int),
                SubscriptionError,
            >((t as int, f as int)) && t < schema.object_types@.len() && f < selections@.len(),
            Err(e) => root_resolution(schema.object_types@, selections@) == Err::<
                (int, int),
                SubscriptionError,
            >(e),
        },
{
    let root = match find_root_subscription_type(schema) {
        Some(t) => t,
        None => return Err(SubscriptionError::NoRootSubscriptionObjectType),
    };
    let grouped = collect_fields(selections);
    if grouped.len() == 0 {
        return Err(SubscriptionError::EmptyQuery);
    }
    if grouped.len() > 1 {
        return Err(SubscriptionError::MultipleSubscriptionFields);
    }
    let field = grouped[0];
    proof {
        let g = grouped_keys(selections@);
        assert forall|j: int| 0 <= j < field implies !selections@[j].is_included() by {
            if selections@[j].is_included() {
                assert(g.contains(selections@[j].response_key@));
                assert(selections@[j].response_key@ == g[0]);
            }
        }
        lemma_first_included_at(selections@, field as int);
    }
    Ok((root, field))
}

/// A top-level inline fragment: its fields count as top-level fields when
/// it applies to the root type.
pub struct InlineFragment {
    pub type_condition: Option<String>,
    pub skip_if: Option<bool>,
    pub include_if: Option<bool>,
    pub fields: Vec<FieldSelection>,
}

/// An item of the subscription operation's top-level selection set.
pub enum Selection {
    Field(FieldSelection),
    InlineFragment(InlineFragment),
}

/// Whether a fragment's fields are taken for the object type named `root`:
/// it is not excluded by its directives and its type condition, if any,
/// names that type.
pub open spec fn fragment_applies(g: InlineFragment, root: Seq<char>) -> bool {
    &&& g.skip_if != Some(true)
    &&& g.include_if != Some(false)
    &&& match g.type_condition {
        Some(t) => t@ == root,
        None => true,
    }
}

/// The fields one top-level item contributes.
pub open spec fn expanded(item: Selection, root: Seq<char>) -> Seq<FieldSelection> {
    match item {
        Selection::Field(f) => seq![f],
        Selection::InlineFragment(g) => if fragment_applies(g, root) {
            g.fields@
        } else {
            seq![]
        },
    }
}

/// The top-level fields of `items` for the object type named `root`, in
/// document order.
pub open spec fn flatten(items: Seq<Selection>, root: Seq<char>) -> Seq<FieldSelection>
    decreases items.len(),
{
    if items.len() == 0 {
        seq![]
    } else {
        expanded(items[0], root) + flatten(items.drop_first(), root)
    }
}

/// Replaces each applicable inline fragment by its fields and drops the
/// others.
pub fn flatten_selections(items: Vec<Selection>, root: &str) -> (r: Vec<FieldSelection>)
    ensures
        r@ == flatten(items@, root@),
{
    let ghost all = items@;
    let mut rest = items;
    let mut out: Vec<FieldSelection> = Vec::new();
    while rest.len() > 0
        invariant
            out@ + flatten(rest@, root@) == flatten(all, root@),
        decreases rest@.len(),
    {
        let ghost before = rest@;
        let item = rest.remove(0);
        proof {
            assert(rest@ =~= before.drop_first());
            assert(out@ + flatten(before, root@) == out@ + (expanded(item, root@) + flatten(
                rest@,
                root@,
            )));
            assert(out@ + (expanded(item, root@) + flatten(rest@, root@)) =~= (out@ + expanded(
                item,
                root@,
            )) + flatten(rest@, root@));
        }
        match item {
            Selection::Field(f) => {
                proof {
                    assert(expanded(Selection::Field(f), root@) == seq![f]);
                }
                let ghost pre = out@;
                out.push(f);
                proof {
                    assert(out@ =~= pre + seq![f]);
                }
            },
            Selection::InlineFragment(g) => {
                let ghost whole = g;
                let type_ok = match &g.type_condition {
                    Some(t) => same_name(t.as_str(), root),
                    None => true,
                };
                let skipped = match g.skip_if {
                    Some(b) => b,
                    None => false,
                };
                let kept = match g.include_if {
                    Some(b) => b,
                    None => true,
                };
                if type_ok && kept && !skipped {
                    let ghost start = out@;
                    let mut fields = g.fields;
                    let ghost gf = fields@;
                    while fields.len() > 0
                        invariant
                            out@ + fields@ == start + gf,
                        decreases fields@.len(),
                    {
                        let ghost fb = fields@;
                        let f = fields.remove(0);
                        let ghost ob = out@;
                        out.push(f);
                        proof {
                            assert(out@ + fields@ =~= ob + fb);
                        }
                    }
                    proof {
                        assert(out@ =~= start + gf);
                        assert(expanded(Selection::InlineFragment(whole), root@) == gf);
                    }
                } else {
                    proof {
                        assert(expanded(Selection::InlineFragment(whole), root@) =~= seq![]);
                        assert(out@ + seq![] =~= out@);
                    }
                }
            },
        }
    }
    proof {
        assert(out@ + seq![] =~= out@);
    }
    out
}

} // verus!
