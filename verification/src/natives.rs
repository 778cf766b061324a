//! Which part of the evaluator owns each native name.

use vstd::prelude::*;

use crate::text::same_text;

verus! {

/// The owner of a native name.
#[derive(Debug, Clone, Copy, PartialEq, Eq, Structural)]
pub enum NativeDispatchOwner {
    RegularScalar,
    Conditional,
    DocumentState,
    Html,
    Markdown,
    Resource,
    Let,
    Foreach,
    Repeat,
    OptionalityCallback,
    VariableState,
    Center,
    Align,
    Container,
    Landscape,
    Br,
    Whitespace,
    StackedLayout,
    Range,
    Pair,
    Dictionary,
    CollectionAccess,
    CollectionTransform,
}

/// The names that an owner answers to.
pub struct NativeOwnerInventory {
    pub owner: NativeDispatchOwner,
    pub names: Vec<&'static str>,
}

/// The names that the evaluator itself gives to an owner.
pub open spec fn native_names(owner: NativeDispatchOwner) -> Seq<Seq<char>> {
    match owner {
        NativeDispatchOwner::RegularScalar => seq![],
        NativeDispatchOwner::Conditional => seq!["if"@, "ifnot"@],
        NativeDispatchOwner::DocumentState => seq!["docname"@, "docdescription"@, "doctype"@],
        NativeDispatchOwner::Html => seq!["html"@],
        NativeDispatchOwner::Markdown => seq!["markdown"@],
        NativeDispatchOwner::Resource => seq!["read"@, "json"@, "include"@],
        NativeDispatchOwner::Let => seq!["let"@],
        NativeDispatchOwner::Foreach => seq!["foreach"@],
        NativeDispatchOwner::Repeat => seq!["repeat"@],
        NativeDispatchOwner::OptionalityCallback => seq!["ifpresent"@, "takeif"@],
        NativeDispatchOwner::VariableState => seq!["var"@],
        NativeDispatchOwner::Center => seq!["center"@],
        NativeDispatchOwner::Align => seq!["align"@],
        NativeDispatchOwner::Container => seq!["container"@],
        NativeDispatchOwner::Landscape => seq!["landscape"@],
        NativeDispatchOwner::Br => seq!["br"@],
        NativeDispatchOwner::Whitespace => seq!["whitespace"@],
        NativeDispatchOwner::StackedLayout => seq!["row"@, "column"@, "grid"@],
        NativeDispatchOwner::Range => seq!["range"@],
        NativeDispatchOwner::Pair => seq!["pair"@],
        NativeDispatchOwner::Dictionary => seq!["dictionary"@],
        NativeDispatchOwner::CollectionAccess => seq![
            "size"@,
            "first"@,
            "second"@,
            "third"@,
            "last"@,
            "getat"@,
            "sumall"@,
            "average"@,
            "distinct"@,
            "reversed"@,
            "groupvalues"@,
        ],
        NativeDispatchOwner::CollectionTransform => seq!["map"@, "filter"@, "sorted"@],
    }
}

/// The owners among the evaluator's own parts, in the order they are listed.
pub open spec fn bespoke_owners() -> Seq<NativeDispatchOwner> {
    seq![
        NativeDispatchOwner::Conditional,
        NativeDispatchOwner::DocumentState,
        NativeDispatchOwner::Html,
        NativeDispatchOwner::Markdown,
        NativeDispatchOwner::Resource,
        NativeDispatchOwner::Let,
        NativeDispatchOwner::Foreach,
        NativeDispatchOwner::Repeat,
        NativeDispatchOwner::OptionalityCallback,
        NativeDispatchOwner::VariableState,
        NativeDispatchOwner::Center,
        NativeDispatchOwner::Align,
        NativeDispatchOwner::Container,
        NativeDispatchOwner::Landscape,
        NativeDispatchOwner::Br,
        NativeDispatchOwner::Whitespace,
        NativeDispatchOwner::StackedLayout,
        NativeDispatchOwner::Range,
        NativeDispatchOwner::Pair,
        NativeDispatchOwner::Dictionary,
        NativeDispatchOwner::CollectionAccess,
        NativeDispatchOwner::CollectionTransform,
    ]
}

/// Whether the evaluator gives a name to an owner.
pub open spec fn owns(owner: NativeDispatchOwner, name: Seq<char>) -> bool {
    native_names(owner).contains(name)
}

/// The owners that the evaluator gives a name to.
pub open spec fn owners_of(name: Seq<char>) -> Seq<NativeDispatchOwner> {
    bespoke_owners().filter(|owner: NativeDispatchOwner| owns(owner, name))
}

/// Names that are known but not supported.
pub open spec fn deferred_names() -> Seq<Seq<char>> {
    seq!["llmstxt"@]
}

/// The texts of a sequence of string slices.
pub open spec fn slices_view(s: Seq<&'static str>) -> Seq<Seq<char>> {
    Seq::new(s.len(), |i: int| s[i]@)
}

/// The names that the evaluator itself gives to an owner.
pub fn names_of(owner: NativeDispatchOwner) -> (r: Vec<&'static str>)
    ensures
        slices_view(r@) == native_names(owner),
{
    let r: Vec<&'static str> = match owner {
        NativeDispatchOwner::RegularScalar => vec![],
        NativeDispatchOwner::Conditional => vec!["if", "ifnot"],
        NativeDispatchOwner::DocumentState => vec!["docname", "docdescription", "doctype"],
        NativeDispatchOwner::Html => vec!["html"],
        NativeDispatchOwner::Markdown => vec!["markdown"],
        NativeDispatchOwner::Resource => vec!["read", "json", "include"],
        NativeDispatchOwner::Let => vec!["let"],
        NativeDispatchOwner::Foreach => vec!["foreach"],
        NativeDispatchOwner::Repeat => vec!["repeat"],
        NativeDispatchOwner::OptionalityCallback => vec!["ifpresent", "takeif"],
        NativeDispatchOwner::VariableState => vec!["var"],
        NativeDispatchOwner::Center => vec!["center"],
        NativeDispatchOwner::Align => vec!["align"],
        NativeDispatchOwner::Container => vec!["container"],
        NativeDispatchOwner::Landscape => vec!["landscape"],
        NativeDispatchOwner::Br => vec!["br"],
        NativeDispatchOwner::Whitespace => vec!["whitespace"],
        NativeDispatchOwner::StackedLayout => vec!["row", "column", "grid"],
        NativeDispatchOwner::Range => vec!["range"],
        NativeDispatchOwner::Pair => vec!["pair"],
        NativeDispatchOwner::Dictionary => vec!["dictionary"],
        NativeDispatchOwner::CollectionAccess => vec![
            "size",
            "first",
            "second",
            "third",
            "last",
            "getat",
            "sumall",
            "average",
            "distinct",
            "reversed",
            "groupvalues",
        ],
        NativeDispatchOwner::CollectionTransform => vec!["map", "filter", "sorted"],
    };
    assert(slices_view(r@) =~= native_names(owner));
    r
}

/// The owners with their names.
pub fn bespoke_native_owners() -> (r: Vec<NativeOwnerInventory>)
    ensures
        r@.len() == bespoke_owners().len(),
        forall|i: int|
            0 <= i < r@.len() ==> (#[trigger] r@[i]).owner == bespoke_owners()[i] && slices_view(
                r@[i].names@,
            ) == native_names(bespoke_owners()[i]),
{
    let owners: Vec<NativeDispatchOwner> = vec![
        NativeDispatchOwner::Conditional,
        NativeDispatchOwner::DocumentState,
        NativeDispatchOwner::Html,
        NativeDispatchOwner::Markdown,
        NativeDispatchOwner::Resource,
        NativeDispatchOwner::Let,
        NativeDispatchOwner::Foreach,
        NativeDispatchOwner::Repeat,
        NativeDispatchOwner::OptionalityCallback,
        NativeDispatchOwner::VariableState,
        NativeDispatchOwner::Center,
        NativeDispatchOwner::Align,
        NativeDispatchOwner::Container,
        NativeDispatchOwner::Landscape,
        NativeDispatchOwner::Br,
        NativeDispatchOwner::Whitespace,
        NativeDispatchOwner::StackedLayout,
        NativeDispatchOwner::Range,
        NativeDispatchOwner::Pair,
        NativeDispatchOwner::Dictionary,
        NativeDispatchOwner::CollectionAccess,
        NativeDispatchOwner::CollectionTransform,
    ];
    assert(owners@ =~= bespoke_owners());
    let mut r: Vec<NativeOwnerInventory> = Vec::new();
    let mut i: usize = 0;
    while i < owners.len()
        invariant
            0 <= i <= owners@.len(),
            owners@ == bespoke_owners(),
            r@.len() == i,
            forall|j: int|
                0 <= j < i ==> (#[trigger] r@[j]).owner == bespoke_owners()[j] && slices_view(
                    r@[j].names@,
                ) == native_names(bespoke_owners()[j]),
        decreases owners@.len() - i,
    {
        r.push(NativeOwnerInventory { owner: owners[i], names: names_of(owners[i]) });
        i += 1;
    }
    r
}

/// The names that are known but not supported.
pub fn deferred_native_names() -> (r: Vec<&'static str>)
    ensures
        slices_view(r@) == deferred_names(),
{
    let r: Vec<&'static str> = vec!["llmstxt"];
    assert(slices_view(r@) =~= deferred_names());
    r
}

/// Whether the name is one of the given names.
fn listed(names: &Vec<&'static str>, name: &str) -> (r: bool)
    ensures
        r == slices_view(names@).contains(name@),
{
    let mut i: usize = 0;
    while i < names.len()
        invariant
            0 <= i <= names@.len(),
            forall|j: int| 0 <= j < i ==> (#[trigger] slices_view(names@)[j]) != name@,
        decreases names@.len() - i,
    {
        if same_text(names[i], name) {
            assert(slices_view(names@)[i as int] == name@);
            return true;
        }
        i += 1;
    }
    false
}

/// Whether the evaluator gives the name to the owner.
pub fn has_native_owner(name: &str, owner: NativeDispatchOwner) -> (r: bool)
    ensures
        r == owns(owner, name@),
{
    listed(&names_of(owner), name)
}

/// Whether the name is known but not supported.
pub fn is_deferred(name: &str) -> (r: bool)
    ensures
        r == deferred_names().contains(name@),
{
    listed(&deferred_native_names(), name)
}

/// The one owner of a name, given whether the host has a regular builtin of that name.
pub open spec fn dispatch_owner(name: Seq<char>, regular: bool) -> Option<NativeDispatchOwner> {
    if regular && owners_of(name).len() == 0 {
        Some(NativeDispatchOwner::RegularScalar)
    } else if !regular && owners_of(name).len() == 1 {
        Some(owners_of(name)[0])
    } else {
        None
    }
}

/// The one owner of a name, given whether the host has a regular builtin of that
/// name: the builtins where no part of the evaluator claims the name, and the part
/// that claims it where no other part and no builtin does.
pub fn native_dispatch_owner(name: &str, regular: bool) -> (r: Option<NativeDispatchOwner>)
    ensures
        r == dispatch_owner(name@, regular),
{
    let inventory = bespoke_native_owners();
    let ghost claims = |owner: NativeDispatchOwner| owns(owner, name@);
    let mut bespoke: Vec<NativeDispatchOwner> = Vec::new();
    let mut i: usize = 0;
    while i < inventory.len()
        invariant
            0 <= i <= inventory@.len(),
            inventory@.len() == bespoke_owners().len(),
            forall|j: int|
                0 <= j < inventory@.len() ==> (#[trigger] inventory@[j]).owner
                    == bespoke_owners()[j] && slices_view(inventory@[j].names@) == native_names(
                    bespoke_owners()[j],
                ),
            claims == (|owner: NativeDispatchOwner| owns(owner, name@)),
            bespoke@ == bespoke_owners().take(i as int).filter(claims),
        decreases inventory@.len() - i,
    {
        let found = listed(&inventory[i].names, name);
        proof {
            let prefix = bespoke_owners().take(i + 1);
            assert(prefix.drop_last() =~= bespoke_owners().take(i as int));
            assert(found == claims(prefix.last()));
            reveal_with_fuel(Seq::filter, 2);
        }
        if found {
            bespoke.push(inventory[i].owner);
        }
        i += 1;
    }
    assert(bespoke_owners().take(i as int) =~= bespoke_owners());
    if regular && bespoke.len() == 0 {
        return Some(NativeDispatchOwner::RegularScalar);
    }
    if !regular && bespoke.len() == 1 {
        return Some(bespoke[0]);
    }
    None
}

/// A number that tells the names of different owners apart.
spec fn name_code(name: Seq<char>) -> int {
    name.len() + 100 * (name[0] as int) + 100000 * (name[name.len() - 1] as int) + 100000000 * (
    name[1] as int)
}

/// The owner that the code of a native name belongs to.
spec fn owner_of_code(code: int) -> NativeDispatchOwner {
    if code == 10210210502 || code == 10211610505 {
        NativeDispatchOwner::Conditional
    } else if code == 11110110007 || code == 11111010014 {
        NativeDispatchOwner::DocumentState
    } else if code == 11610810404 {
        NativeDispatchOwner::Html
    } else if code == 9711010908 {
        NativeDispatchOwner::Markdown
    } else if code == 10110011404 || code == 11511010604 || code == 11010110507 {
        NativeDispatchOwner::Resource
    } else if code == 10111610803 {
        NativeDispatchOwner::Let
    } else if code == 11110410207 {
        NativeDispatchOwner::Foreach
    } else if code == 10111611406 {
        NativeDispatchOwner::Repeat
    } else if code == 10211610509 || code == 9710211606 {
        NativeDispatchOwner::OptionalityCallback
    } else if code == 9711411803 {
        NativeDispatchOwner::VariableState
    } else if code == 10111409906 {
        NativeDispatchOwner::Center
    } else if code == 10811009705 {
        NativeDispatchOwner::Align
    } else if code == 11111409909 {
        NativeDispatchOwner::Container
    } else if code == 9710110809 {
        NativeDispatchOwner::Landscape
    } else if code == 11411409802 {
        NativeDispatchOwner::Br
    } else if code == 10410111910 {
        NativeDispatchOwner::Whitespace
    } else if code == 11111911403 || code == 11111009906 || code == 11410010304 {
        NativeDispatchOwner::StackedLayout
    } else if code == 9710111405 {
        NativeDispatchOwner::Range
    } else if code == 9711411204 {
        NativeDispatchOwner::Pair
    } else if code == 10512110010 {
        NativeDispatchOwner::Dictionary
    } else if code == 10510111504 || code == 10511610205 || code == 10110011506
        || code == 10410011605 || code == 9711610804 || code == 10111610305 || code == 11710811506
        || code == 11810109707 || code == 10511610008 || code == 10110011408
        || code == 11411510311 {
        NativeDispatchOwner::CollectionAccess
    } else if code == 9711210903 || code == 10511410206 || code == 11110011506 {
        NativeDispatchOwner::CollectionTransform
    } else {
        NativeDispatchOwner::RegularScalar
    }
}

/// The code of a native name tells its owner.
proof fn lemma_code_tells_owner(owner: NativeDispatchOwner, name: Seq<char>)
    requires
        owns(owner, name),
    ensures
        owner_of_code(name_code(name)) == owner,
{
    let i = choose|i: int| 0 <= i < native_names(owner).len() && native_names(owner)[i] == name;
    match owner {
        NativeDispatchOwner::RegularScalar => {
        },
        NativeDispatchOwner::Conditional => {
            reveal_strlit("if");
            reveal_strlit("ifnot");
        },
        NativeDispatchOwner::DocumentState => {
            reveal_strlit("docname");
            reveal_strlit("docdescription");
            reveal_strlit("doctype");
        },
        NativeDispatchOwner::Html => {
            reveal_strlit("html");
        },
        NativeDispatchOwner::Markdown => {
            reveal_strlit("markdown");
        },
        NativeDispatchOwner::Resource => {
            reveal_strlit("read");
            reveal_strlit("json");
            reveal_strlit("include");
        },
        NativeDispatchOwner::Let => {
            reveal_strlit("let");
        },
        NativeDispatchOwner::Foreach => {
            reveal_strlit("foreach");
        },
        NativeDispatchOwner::Repeat => {
            reveal_strlit("repeat");
        },
        NativeDispatchOwner::OptionalityCallback => {
            reveal_strlit("ifpresent");
            reveal_strlit("takeif");
        },
        NativeDispatchOwner::VariableState => {
            reveal_strlit("var");
        },
        NativeDispatchOwner::Center => {
            reveal_strlit("center");
        },
        NativeDispatchOwner::Align => {
            reveal_strlit("align");
        },
        NativeDispatchOwner::Container => {
            reveal_strlit("container");
        },
        NativeDispatchOwner::Landscape => {
            reveal_strlit("landscape");
        },
        NativeDispatchOwner::Br => {
            reveal_strlit("br");
        },
        NativeDispatchOwner::Whitespace => {
            reveal_strlit("whitespace");
        },
        NativeDispatchOwner::StackedLayout => {
            reveal_strlit("row");
            reveal_strlit("column");
            reveal_strlit("grid");
        },
        NativeDispatchOwner::Range => {
            reveal_strlit("range");
        },
        NativeDispatchOwner::Pair => {
            reveal_strlit("pair");
        },
        NativeDispatchOwner::Dictionary => {
            reveal_strlit("dictionary");
        },
        NativeDispatchOwner::CollectionAccess => {
            reveal_strlit("size");
            reveal_strlit("first");
            reveal_strlit("second");
            reveal_strlit("third");
            reveal_strlit("last");
            reveal_strlit("getat");
            reveal_strlit("sumall");
            reveal_strlit("average");
            reveal_strlit("distinct");
            reveal_strlit("reversed");
            reveal_strlit("groupvalues");
        },
        NativeDispatchOwner::CollectionTransform => {
            reveal_strlit("map");
            reveal_strlit("filter");
            reveal_strlit("sorted");
        },
    }
}

/// No part of the evaluator claims a name that is known but not supported.
pub proof fn lemma_deferred_unowned(owner: NativeDispatchOwner, name: Seq<char>)
    requires
        deferred_names().contains(name),
    ensures
        !owns(owner, name),
{
    reveal_strlit("llmstxt");
    let i = choose|i: int| 0 <= i < deferred_names().len() && deferred_names()[i] == name;
    assert(name == "llmstxt"@);
    if owns(owner, name) {
        lemma_code_tells_owner(owner, name);
    }
}

/// No two parts of the evaluator claim the same name.
pub proof fn lemma_one_owner(a: NativeDispatchOwner, b: NativeDispatchOwner, name: Seq<char>)
    requires
        owns(a, name),
        owns(b, name),
    ensures
        a == b,
{
    lemma_code_tells_owner(a, name);
    lemma_code_tells_owner(b, name);
}

/// No part of the evaluator lists a name twice.
pub proof fn lemma_names_listed_once(owner: NativeDispatchOwner)
    ensures
        native_names(owner).no_duplicates(),
{
    let names = native_names(owner);
    match owner {
        NativeDispatchOwner::Conditional => {
            reveal_strlit("if");
            reveal_strlit("ifnot");
        },
        NativeDispatchOwner::DocumentState => {
            reveal_strlit("docname");
            reveal_strlit("docdescription");
            reveal_strlit("doctype");
            assert("docname"@[3] != "doctype"@[3]);
        },
        NativeDispatchOwner::Resource => {
            reveal_strlit("read");
            reveal_strlit("json");
            reveal_strlit("include");
        },
        NativeDispatchOwner::OptionalityCallback => {
            reveal_strlit("ifpresent");
            reveal_strlit("takeif");
        },
        NativeDispatchOwner::StackedLayout => {
            reveal_strlit("row");
            reveal_strlit("column");
            reveal_strlit("grid");
        },
        NativeDispatchOwner::CollectionTransform => {
            reveal_strlit("map");
            reveal_strlit("filter");
            reveal_strlit("sorted");
        },
        NativeDispatchOwner::CollectionAccess => {
            reveal_strlit("size");
            reveal_strlit("first");
            reveal_strlit("second");
            reveal_strlit("third");
            reveal_strlit("last");
            reveal_strlit("getat");
            reveal_strlit("sumall");
            reveal_strlit("average");
            reveal_strlit("distinct");
            reveal_strlit("reversed");
            reveal_strlit("groupvalues");
        },
        _ => {},
    }
    assert forall|i: int, j: int| 0 <= i < names.len() && 0 <= j < names.len() && i
        != j implies names[i] != names[j] by {
        assert(owner is DocumentState || name_code(names[i]) != name_code(names[j]));
    }
}

/// What is left of owners that differ, where at most one of them claims the name.
proof fn lemma_one_claims(
    owners: Seq<NativeDispatchOwner>,
    name: Seq<char>,
    owner: NativeDispatchOwner,
)
    requires
        owners.no_duplicates(),
        forall|other: NativeDispatchOwner| #[trigger]
            owns(other, name) && owners.contains(other) ==> other == owner,
    ensures
        owners.filter(|other: NativeDispatchOwner| owns(other, name)) == (if owners.contains(owner)
            && owns(owner, name) {
            seq![owner]
        } else {
            Seq::empty()
        }),
    decreases owners.len(),
{
    reveal_with_fuel(Seq::filter, 2);
    if owners.len() > 0 {
        let before = owners.drop_last();
        assert(owners.last() == owners[owners.len() - 1]);
        assert forall|other: NativeDispatchOwner| #[trigger]
            owns(other, name) && before.contains(other) implies other == owner by {
            let i = choose|i: int| 0 <= i < before.len() && before[i] == other;
            assert(owners[i] == other);
        }
        lemma_one_claims(before, name, owner);
        assert(owners.contains(owner) <==> before.contains(owner) || owners.last() == owner) by {
            if before.contains(owner) {
                let i = choose|i: int| 0 <= i < before.len() && before[i] == owner;
                assert(owners[i] == owner);
            }
            if owners.contains(owner) {
                let i = choose|i: int| 0 <= i < owners.len() && owners[i] == owner;
                if i < before.len() {
                    assert(before[i] == owner);
                }
            }
        }
        if before.contains(owner) && owners.last() == owner {
            let i = choose|i: int| 0 <= i < before.len() && before[i] == owner;
            assert(owners[i] == owners[owners.len() - 1]);
        }
        assert(owns(owners.last(), name) ==> owners.last() == owner);
        assert(Seq::<NativeDispatchOwner>::empty().push(owner) =~= seq![owner]);
    }
}

proof fn lemma_bespoke_owners(owner: NativeDispatchOwner)
    ensures
        bespoke_owners().no_duplicates(),
        owner != NativeDispatchOwner::RegularScalar ==> bespoke_owners().contains(owner),
{
    let all = bespoke_owners();
    let i: int = match owner {
        NativeDispatchOwner::RegularScalar => 0,
        NativeDispatchOwner::Conditional => 0,
        NativeDispatchOwner::DocumentState => 1,
        NativeDispatchOwner::Html => 2,
        NativeDispatchOwner::Markdown => 3,
        NativeDispatchOwner::Resource => 4,
        NativeDispatchOwner::Let => 5,
        NativeDispatchOwner::Foreach => 6,
        NativeDispatchOwner::Repeat => 7,
        NativeDispatchOwner::OptionalityCallback => 8,
        NativeDispatchOwner::VariableState => 9,
        NativeDispatchOwner::Center => 10,
        NativeDispatchOwner::Align => 11,
        NativeDispatchOwner::Container => 12,
        NativeDispatchOwner::Landscape => 13,
        NativeDispatchOwner::Br => 14,
        NativeDispatchOwner::Whitespace => 15,
        NativeDispatchOwner::StackedLayout => 16,
        NativeDispatchOwner::Range => 17,
        NativeDispatchOwner::Pair => 18,
        NativeDispatchOwner::Dictionary => 19,
        NativeDispatchOwner::CollectionAccess => 20,
        NativeDispatchOwner::CollectionTransform => 21,
    };
    assert(owner != NativeDispatchOwner::RegularScalar ==> all[i] == owner);
}

/// Every name of the inventory has one owner, whatever builtins the host has besides: a builtin
/// that no part of the evaluator claims belongs to the builtins, a name that a part claims
/// belongs to that part, and a name that is known but not supported belongs to none.
pub proof fn lemma_inventory(builtins: Set<Seq<char>>, owner: NativeDispatchOwner, name: Seq<char>)
    requires
        forall|part: NativeDispatchOwner, claimed: Seq<char>| #[trigger]
            owns(part, claimed) ==> !builtins.contains(claimed),
        forall|i: int|
            0 <= i < deferred_names().len() ==> !builtins.contains(#[trigger] deferred_names()[i]),
    ensures
        builtins.contains(name) ==> dispatch_owner(name, true) == Some(
            NativeDispatchOwner::RegularScalar,
        ),
        owns(owner, name) ==> dispatch_owner(name, builtins.contains(name)) == Some(owner),
        deferred_names().contains(name) ==> dispatch_owner(name, builtins.contains(name)) is None,
{
    lemma_bespoke_owners(owner);
    if owns(owner, name) {
        assert forall|other: NativeDispatchOwner| #[trigger]
            owns(other, name) && bespoke_owners().contains(other) implies other == owner by {
            lemma_one_owner(other, owner, name);
        }
        lemma_one_claims(bespoke_owners(), name, owner);
    } else if builtins.contains(name) || deferred_names().contains(name) {
        assert forall|other: NativeDispatchOwner| #[trigger]
            owns(other, name) && bespoke_owners().contains(other) implies other == owner by {
            if deferred_names().contains(name) {
                lemma_deferred_unowned(other, name);
            }
        }
        lemma_one_claims(bespoke_owners(), name, owner);
    }
    if deferred_names().contains(name) {
        lemma_deferred_unowned(owner, name);
    }
}

/// Whether the name belongs to `StackedLayout`.
pub fn is_stacked_layout(name: &str) -> (r: bool)
    ensures
        r == owns(NativeDispatchOwner::StackedLayout, name@),
{
    has_native_owner(name, NativeDispatchOwner::StackedLayout)
}

/// Whether the name belongs to `Center`.
pub fn is_center(name: &str) -> (r: bool)
    ensures
        r == owns(NativeDispatchOwner::Center, name@),
{
    has_native_owner(name, NativeDispatchOwner::Center)
}

/// Whether the name belongs to `Align`.
pub fn is_align(name: &str) -> (r: bool)
    ensures
        r == owns(NativeDispatchOwner::Align, name@),
{
    has_native_owner(name, NativeDispatchOwner::Align)
}

/// Whether the name belongs to `Container`.
pub fn is_container(name: &str) -> (r: bool)
    ensures
        r == owns(NativeDispatchOwner::Container, name@),
{
    has_native_owner(name, NativeDispatchOwner::Container)
}

/// Whether the name belongs to `Landscape`.
pub fn is_landscape(name: &str) -> (r: bool)
    ensures
        r == owns(NativeDispatchOwner::Landscape, name@),
{
    has_native_owner(name, NativeDispatchOwner::Landscape)
}

/// Whether the name belongs to `Br`.
pub fn is_br(name: &str) -> (r: bool)
    ensures
        r == owns(NativeDispatchOwner::Br, name@),
{
    has_native_owner(name, NativeDispatchOwner::Br)
}

/// Whether the name belongs to `Whitespace`.
pub fn is_whitespace(name: &str) -> (r: bool)
    ensures
        r == owns(NativeDispatchOwner::Whitespace, name@),
{
    has_native_owner(name, NativeDispatchOwner::Whitespace)
}

/// Whether the name belongs to `DocumentState`.
pub fn is_document_state(name: &str) -> (r: bool)
    ensures
        r == owns(NativeDispatchOwner::DocumentState, name@),
{
    has_native_owner(name, NativeDispatchOwner::DocumentState)
}

/// Whether the name belongs to `Html`.
pub fn is_html(name: &str) -> (r: bool)
    ensures
        r == owns(NativeDispatchOwner::Html, name@),
{
    has_native_owner(name, NativeDispatchOwner::Html)
}

/// Whether the name belongs to `Markdown`.
pub fn is_markdown(name: &str) -> (r: bool)
    ensures
        r == owns(NativeDispatchOwner::Markdown, name@),
{
    has_native_owner(name, NativeDispatchOwner::Markdown)
}

/// Whether the name belongs to `Resource`.
pub fn is_resource(name: &str) -> (r: bool)
    ensures
        r == owns(NativeDispatchOwner::Resource, name@),
{
    has_native_owner(name, NativeDispatchOwner::Resource)
}

/// Whether the name belongs to `Conditional`.
pub fn is_conditional(name: &str) -> (r: bool)
    ensures
        r == owns(NativeDispatchOwner::Conditional, name@),
{
    has_native_owner(name, NativeDispatchOwner::Conditional)
}

/// Whether the name belongs to `Let`.
pub fn is_let(name: &str) -> (r: bool)
    ensures
        r == owns(NativeDispatchOwner::Let, name@),
{
    has_native_owner(name, NativeDispatchOwner::Let)
}

/// Whether the name belongs to `Foreach`.
pub fn is_foreach(name: &str) -> (r: bool)
    ensures
        r == owns(NativeDispatchOwner::Foreach, name@),
{
    has_native_owner(name, NativeDispatchOwner::Foreach)
}

/// Whether the name belongs to `Repeat`.
pub fn is_repeat(name: &str) -> (r: bool)
    ensures
        r == owns(NativeDispatchOwner::Repeat, name@),
{
    has_native_owner(name, NativeDispatchOwner::Repeat)
}

/// Whether the name belongs to `OptionalityCallback`.
pub fn is_optionality_callback(name: &str) -> (r: bool)
    ensures
        r == owns(NativeDispatchOwner::OptionalityCallback, name@),
{
    has_native_owner(name, NativeDispatchOwner::OptionalityCallback)
}

/// Whether the name belongs to `Range`.
pub fn is_range(name: &str) -> (r: bool)
    ensures
        r == owns(NativeDispatchOwner::Range, name@),
{
    has_native_owner(name, NativeDispatchOwner::Range)
}

/// Whether the name belongs to `Pair`.
pub fn is_pair(name: &str) -> (r: bool)
    ensures
        r == owns(NativeDispatchOwner::Pair, name@),
{
    has_native_owner(name, NativeDispatchOwner::Pair)
}

/// Whether the name belongs to `Dictionary`.
pub fn is_dictionary(name: &str) -> (r: bool)
    ensures
        r == owns(NativeDispatchOwner::Dictionary, name@),
{
    has_native_owner(name, NativeDispatchOwner::Dictionary)
}

/// Whether the name belongs to `CollectionAccess`.
pub fn is_collection_access(name: &str) -> (r: bool)
    ensures
        r == owns(NativeDispatchOwner::CollectionAccess, name@),
{
    has_native_owner(name, NativeDispatchOwner::CollectionAccess)
}

/// Whether the name belongs to `CollectionTransform`.
pub fn is_collection_transform(name: &str) -> (r: bool)
    ensures
        r == owns(NativeDispatchOwner::CollectionTransform, name@),
{
    has_native_owner(name, NativeDispatchOwner::CollectionTransform)
}

/// Whether the name belongs to `VariableState`.
pub fn is_var_declaration(name: &str) -> (r: bool)
    ensures
        r == owns(NativeDispatchOwner::VariableState, name@),
{
    has_native_owner(name, NativeDispatchOwner::VariableState)
}

} // verus!
