//! Which occurrence of a table in a join a `column` node belongs to.

use crate::joins::planning::{DetectedJoin, JoinLeaf, JoinLeafV};
use crate::json::{find_member_text, group_json_views, member_text, Json, JsonV, Members, MembersV};
use crate::text::{ascii_same, decimal, eq_ignore_ascii_case, number_text, same_text};
use crate::tree::{column_nodes, columns_of, is_column, set_member, with_member};
use std::collections::BTreeSet;
use vstd::prelude::*;

verus! {

broadcast use {group_json_views, vstd::std_specs::btree::group_btree_axioms};

/// Where a `column` node belongs.
#[derive(Debug, Clone, Copy, PartialEq, Eq, Structural)]
pub enum ColumnLeg {
    Leg(usize),
    /// No `tableName`, or one that no leg declares; such a column stays unqualified.
    NoLeg,
    /// `tableName` names several legs and `tableAlias` matches none of them.
    Unattributable,
}

/// The legs that a tree refers to.
#[derive(Debug, Clone, Default, PartialEq, Eq)]
pub struct LegReferences {
    pub legs: BTreeSet<usize>,
    /// Some column belongs to no leg or could belong to several.
    pub has_unattributed: bool,
    pub any_column: bool,
}

/// A column that could belong to several legs.
#[derive(Debug, Clone, PartialEq, Eq)]
pub struct UnattributableColumn {
    table_name: String,
    table_alias: Option<String>,
    column_name: Option<String>,
}

/// The value of an [`UnattributableColumn`].
#[verifier::ext_equal]
pub struct UnattributableColumnV {
    pub table_name: Seq<char>,
    pub table_alias: Option<Seq<char>>,
    pub column_name: Option<Seq<char>>,
}

impl View for UnattributableColumn {
    type V = UnattributableColumnV;

    closed spec fn view(&self) -> UnattributableColumnV {
        UnattributableColumnV {
            table_name: self.table_name@,
            table_alias: self.table_alias.deep_view(),
            column_name: self.column_name.deep_view(),
        }
    }
}

impl UnattributableColumnV {
    /// What an error says of the members of a `column` node.
    pub open spec fn of(column: MembersV) -> UnattributableColumnV {
        UnattributableColumnV {
            table_name: match member_text(column, "tableName"@) {
                Some(name) => name,
                None => Seq::empty(),
            },
            table_alias: member_text(column, "tableAlias"@),
            column_name: member_text(column, "name"@),
        }
    }

    /// The words for the column.
    pub open spec fn description(self) -> Seq<char> {
        let column = match self.column_name {
            Some(name) => name,
            None => "<unnamed>"@,
        };
        let head = "column "@ + column + " of table "@ + self.table_name;
        match self.table_alias {
            Some(alias) => head + " with alias "@ + alias,
            None => head + " with no alias"@,
        }
    }
}

fn owned_member_text(column: &Members, key: &str) -> (text: Option<String>)
    ensures
        text.deep_view() == member_text(column.deep_view(), key@),
{
    match find_member_text(column, key) {
        Some(text) => Some(text.to_string()),
        None => None,
    }
}

impl UnattributableColumn {
    fn of(column: &Members) -> (unattributable: UnattributableColumn)
        ensures
            unattributable@ == UnattributableColumnV::of(column.deep_view()),
    {
        let table_name = match owned_member_text(column, "tableName") {
            Some(name) => name,
            None => String::new(),
        };
        UnattributableColumn {
            table_name,
            table_alias: owned_member_text(column, "tableAlias"),
            column_name: owned_member_text(column, "name"),
        }
    }

    /// Words that name the column, its table and its alias.
    pub fn describe(&self) -> (text: String)
        ensures
            text@ == self@.description(),
    {
        let mut text = "column ".to_string();
        match &self.column_name {
            Some(name) => text.append(name.as_str()),
            None => text.append("<unnamed>"),
        }
        text.append(" of table ");
        text.append(self.table_name.as_str());
        match &self.table_alias {
            Some(alias) => {
                text.append(" with alias ");
                text.append(alias.as_str());
            },
            None => text.append(" with no alias"),
        }
        text
    }
}

#[derive(Debug, Clone)]
struct LegKey {
    table_name: String,
    table_alias: Option<String>,
    leg: usize,
}

/// A table name and alias that select a leg.
#[verifier::ext_equal]
pub struct LegKeyV {
    pub table_name: Seq<char>,
    pub table_alias: Option<Seq<char>>,
    pub leg: usize,
}

impl DeepView for LegKey {
    type V = LegKeyV;

    closed spec fn deep_view(&self) -> LegKeyV {
        LegKeyV {
            table_name: self.table_name@,
            table_alias: self.table_alias.deep_view(),
            leg: self.leg,
        }
    }
}

/// The legs of a join: one per occurrence of a table in it.
///
/// A table name alone would collapse the occurrences of a self-joined table into one leg, so a
/// leg is keyed by table name and alias, the alias compared verbatim. Where a table name names
/// exactly one leg the alias is not consulted.
#[derive(Debug, Clone)]
pub struct JoinLegs {
    keys: Vec<LegKey>,
    leg_count: usize,
}

/// The value of a [`JoinLegs`].
#[verifier::ext_equal]
pub struct JoinLegsV {
    pub keys: Seq<LegKeyV>,
    pub leg_count: usize,
}

impl View for JoinLegs {
    type V = JoinLegsV;

    closed spec fn view(&self) -> JoinLegsV {
        JoinLegsV { keys: self.keys.deep_view(), leg_count: self.leg_count }
    }
}

/// The leg of the first key that carries `alias`.
pub open spec fn first_with_alias(keys: Seq<LegKeyV>, alias: Option<Seq<char>>) -> Option<usize>
    decreases keys.len(),
{
    if keys.len() == 0 {
        None
    } else if keys[0].table_alias == alias {
        Some(keys[0].leg)
    } else {
        first_with_alias(keys.skip(1), alias)
    }
}

/// The subquery alias of a leg.
pub open spec fn leg_alias_text(leg: usize) -> Seq<char> {
    "LHS_T"@ + decimal(leg as nat)
}

impl JoinLegsV {
    /// One leg per leaf.
    pub open spec fn of_leaves(leaves: Seq<JoinLeafV>) -> JoinLegsV {
        JoinLegsV {
            keys: Seq::new(
                leaves.len(),
                |i: int|
                    LegKeyV {
                        table_name: leaves[i].table_name,
                        table_alias: leaves[i].table_alias,
                        leg: i as usize,
                    },
            ),
            leg_count: leaves.len() as usize,
        }
    }

    /// One leg that every involved table maps to.
    pub open spec fn of_single_scan(request: JsonV) -> JoinLegsV {
        JoinLegsV {
            keys: match request.items_field("involvedTables"@) {
                Some(tables) => tables.filter_map(
                    |table: JsonV|
                        match table.text_field("name"@) {
                            Some(name) => Some(
                                LegKeyV { table_name: name, table_alias: None, leg: 0 },
                            ),
                            None => None,
                        },
                ),
                None => Seq::empty(),
            },
            leg_count: 1,
        }
    }

    /// The keys whose table name agrees with `table` up to ASCII case.
    pub open spec fn matching(self, table: Seq<char>) -> Seq<LegKeyV> {
        self.keys.filter(|key: LegKeyV| ascii_same(key.table_name, table))
    }

    /// Where the members of a `column` node belong.
    pub open spec fn resolve(self, column: MembersV) -> ColumnLeg {
        match member_text(column, "tableName"@) {
            None => ColumnLeg::NoLeg,
            Some(table) => {
                let keys = self.matching(table);
                if keys.len() == 0 {
                    ColumnLeg::NoLeg
                } else if forall|i: int|
                    0 <= i < keys.len() ==> (#[trigger] keys[i]).leg == keys[0].leg {
                    ColumnLeg::Leg(keys[0].leg)
                } else {
                    match first_with_alias(keys, member_text(column, "tableAlias"@)) {
                        Some(leg) => ColumnLeg::Leg(leg),
                        None => ColumnLeg::Unattributable,
                    }
                }
            },
        }
    }

    /// Whether every one of the columns belongs to some leg.
    pub open spec fn all_attributed(self, columns: Seq<MembersV>) -> bool {
        forall|i: int| 0 <= i < columns.len() ==> self.resolve(#[trigger] columns[i]) is Leg
    }

    /// Whether some of the columns belongs to `leg`.
    pub open spec fn refers_to(self, columns: Seq<MembersV>, leg: usize) -> bool {
        exists|i: int|
            0 <= i < columns.len() && self.resolve(#[trigger] columns[i]) == ColumnLeg::Leg(leg)
    }

    /// The legs that some of the columns belongs to.
    pub open spec fn legs_of(self, columns: Seq<MembersV>) -> Set<usize> {
        Set::new(|leg: usize| self.refers_to(columns, leg))
    }

    /// The highest leg of columns that all belong to some leg.
    pub open spec fn highest(self, columns: Seq<MembersV>) -> usize
        decreases columns.len(),
    {
        if columns.len() == 0 {
            0
        } else {
            let below = self.highest(columns.drop_last());
            let last = self.resolve(columns.last())->Leg_0;
            if below < last {
                last
            } else {
                below
            }
        }
    }

    /// The earliest point of a left-to-right chain at which every leg of the tree is in scope:
    /// its highest leg. A tree without columns, or with an unattributed one, has none.
    pub open spec fn attachment(self, node: JsonV) -> Option<usize> {
        let columns = column_nodes(node);
        if columns.len() > 0 && self.all_attributed(columns) {
            Some(self.highest(columns))
        } else {
            None
        }
    }

    /// The leg that every column of the tree belongs to. A tree without columns has none.
    pub open spec fn sole_leg(self, node: JsonV) -> Option<usize> {
        let columns = column_nodes(node);
        if columns.len() > 0 && self.resolve(columns[0]) is Leg && forall|i: int|
            0 <= i < columns.len() ==> self.resolve(#[trigger] columns[i]) == self.resolve(
                columns[0],
            ) {
            Some(self.resolve(columns[0])->Leg_0)
        } else {
            None
        }
    }

    /// The tree with the `tableAlias` of every column set to the alias of its leg; the first
    /// unattributable column otherwise, the nodes below a node before the node itself.
    pub open spec fn qualified(self, node: JsonV) -> Result<JsonV, UnattributableColumnV>
        decreases node,
    {
        match node {
            JsonV::Object(members) => match self.qualified_members(members) {
                Ok(out) => if is_column(members) {
                    match self.resolve(members) {
                        ColumnLeg::Leg(leg) => Ok(
                            JsonV::Object(
                                with_member(
                                    out,
                                    "tableAlias"@,
                                    JsonV::Str(leg_alias_text(leg)),
                                ),
                            ),
                        ),
                        ColumnLeg::NoLeg => Ok(JsonV::Object(out)),
                        ColumnLeg::Unattributable => Err(UnattributableColumnV::of(members)),
                    }
                } else {
                    Ok(JsonV::Object(out))
                },
                Err(column) => Err(column),
            },
            JsonV::Array(items) => match self.qualified_items(items) {
                Ok(out) => Ok(JsonV::Array(out)),
                Err(column) => Err(column),
            },
            _ => Ok(node),
        }
    }

    /// The members with the trees below them qualified.
    pub open spec fn qualified_members(self, members: MembersV) -> Result<
        MembersV,
        UnattributableColumnV,
    >
        decreases members,
    {
        if members.len() == 0 {
            Ok(Seq::empty())
        } else {
            match self.qualified_members(members.drop_last()) {
                Ok(out) => match self.qualified(members.last().1) {
                    Ok(value) => Ok(out.push((members.last().0, value))),
                    Err(column) => Err(column),
                },
                Err(column) => Err(column),
            }
        }
    }

    /// The items, qualified.
    pub open spec fn qualified_items(self, items: Seq<JsonV>) -> Result<
        Seq<JsonV>,
        UnattributableColumnV,
    >
        decreases items,
    {
        if items.len() == 0 {
            Ok(Seq::empty())
        } else {
            match self.qualified_items(items.drop_last()) {
                Ok(out) => match self.qualified(items.last()) {
                    Ok(value) => Ok(out.push(value)),
                    Err(column) => Err(column),
                },
                Err(column) => Err(column),
            }
        }
    }
}

/// The highest leg is a leg of one of the columns and no lower than any of theirs.
pub proof fn lemma_highest(legs: JoinLegsV, columns: Seq<MembersV>)
    requires
        columns.len() > 0,
        legs.all_attributed(columns),
    ensures
        legs.refers_to(columns, legs.highest(columns)),
        forall|leg: usize| legs.refers_to(columns, leg) ==> leg <= legs.highest(columns),
    decreases columns.len(),
{
    let last = columns.last();
    assert(columns[columns.len() - 1] == last);
    assert(legs.resolve(last) is Leg);
    if columns.len() > 1 {
        let rest = columns.drop_last();
        assert(legs.all_attributed(rest)) by {
            assert forall|i: int| 0 <= i < rest.len() implies legs.resolve(
                #[trigger] rest[i],
            ) is Leg by {
                assert(rest[i] == columns[i]);
            }
        }
        lemma_highest(legs, rest);
        assert forall|leg: usize| legs.refers_to(columns, leg) implies leg <= legs.highest(
            columns,
        ) by {
            let i = choose|i: int|
                0 <= i < columns.len() && legs.resolve(#[trigger] columns[i]) == ColumnLeg::Leg(
                    leg,
                );
            if i < rest.len() {
                assert(rest[i] == columns[i]);
                assert(legs.refers_to(rest, leg));
            }
        }
        if legs.highest(columns) == legs.highest(rest) {
            let i = choose|i: int|
                0 <= i < rest.len() && legs.resolve(#[trigger] rest[i]) == ColumnLeg::Leg(
                    legs.highest(rest),
                );
            assert(columns[i] == rest[i]);
        }
    } else {
        reveal_with_fuel(JoinLegsV::highest, 2);
        assert(legs.highest(columns) == legs.resolve(last)->Leg_0);
    }
}

fn same_alias(a: &Option<String>, b: Option<&str>) -> (same: bool)
    ensures
        same == (a.deep_view() == b.deep_view()),
{
    match (a, b) {
        (Some(left), Some(right)) => same_text(left.as_str(), right),
        (None, None) => true,
        _ => false,
    }
}

impl JoinLegs {
    /// One leg per leaf, in their order.
    pub fn from_leaves(leaves: &Vec<JoinLeaf>) -> (legs: JoinLegs)
        ensures
            legs@ == JoinLegsV::of_leaves(leaves.deep_view()),
    {
        let ghost model = JoinLegsV::of_leaves(leaves.deep_view());
        let mut keys: Vec<LegKey> = Vec::new();
        let mut leg: usize = 0;
        while leg < leaves.len()
            invariant
                0 <= leg <= leaves.len(),
                model == JoinLegsV::of_leaves(leaves.deep_view()),
                keys.deep_view() =~= model.keys.take(leg as int),
            decreases leaves.len() - leg,
        {
            let ghost before = keys.deep_view();
            let key = LegKey {
                table_name: leaves[leg].table_name.clone(),
                table_alias: leaves[leg].table_alias.clone(),
                leg,
            };
            keys.push(key);
            assert(keys.deep_view() =~= before.push(key.deep_view()));
            leg += 1;
        }
        let legs = JoinLegs { keys, leg_count: leaves.len() };
        assert(legs@ =~= model);
        legs
    }

    /// One leg that every involved table maps to, so that no column is unattributable. A request
    /// without involved tables qualifies nothing.
    pub fn for_single_scan(request: &Json) -> (legs: JoinLegs)
        ensures
            legs@ == JoinLegsV::of_single_scan(request@),
    {
        let ghost key_of = |table: JsonV|
            match table.text_field("name"@) {
                Some(name) => Some(LegKeyV { table_name: name, table_alias: None, leg: 0 }),
                None => None,
            };
        let mut keys: Vec<LegKey> = Vec::new();
        if let Some(tables) = request.get_array("involvedTables") {
            let ghost views = tables.deep_view();
            let mut i: usize = 0;
            assert(keys.deep_view() =~= views.take(0).filter_map(key_of));
            while i < tables.len()
                invariant
                    0 <= i <= tables.len(),
                    views == tables.deep_view(),
                    key_of == |table: JsonV|
                        match table.text_field("name"@) {
                            Some(name) => Some(
                                LegKeyV { table_name: name, table_alias: None, leg: 0 },
                            ),
                            None => None,
                        },
                    keys.deep_view() == views.take(i as int).filter_map(key_of),
                decreases tables.len() - i,
            {
                assert(views.take(i + 1).drop_last() =~= views.take(i as int));
                let ghost before = keys.deep_view();
                if let Some(name) = tables[i].get_str("name") {
                    let key = LegKey {
                        table_name: name.to_string(),
                        table_alias: None,
                        leg: 0,
                    };
                    keys.push(key);
                    assert(keys.deep_view() =~= before + seq![key.deep_view()]);
                }
                i += 1;
            }
            assert(views.take(i as int) =~= views);
        }
        let legs = JoinLegs { keys, leg_count: 1 };
        assert(legs@ =~= JoinLegsV::of_single_scan(request@));
        legs
    }

    /// The number of legs.
    pub fn leg_count(&self) -> (count: usize)
        ensures
            count == self@.leg_count,
    {
        self.leg_count
    }

    /// The subquery alias of a leg.
    pub fn leg_alias(&self, leg: usize) -> (alias: String)
        ensures
            alias@ == leg_alias_text(leg),
    {
        let mut alias = "LHS_T".to_string();
        alias.append(number_text(leg as u64).as_str());
        alias
    }

    /// Finds where the members of a `column` node belong.
    pub fn resolve_column(&self, column: &Members) -> (leg: ColumnLeg)
        ensures
            leg == self@.resolve(column.deep_view()),
    {
        let table_name = match find_member_text(column, "tableName") {
            Some(name) => name,
            None => {
                return ColumnLeg::NoLeg;
            },
        };
        let ghost table = table_name@;
        let ghost agrees = |key: LegKeyV| ascii_same(key.table_name, table);
        let ghost all = self.keys.deep_view();
        let mut matching: Vec<&LegKey> = Vec::new();
        let mut i: usize = 0;
        proof {
            reveal(Seq::filter);
        }
        assert(matching.deep_view() =~= all.take(0).filter(agrees));
        while i < self.keys.len()
            invariant
                0 <= i <= self.keys.len(),
                all == self.keys.deep_view(),
                table == table_name@,
                agrees == |key: LegKeyV| ascii_same(key.table_name, table),
                matching.deep_view() == all.take(i as int).filter(agrees),
            decreases self.keys.len() - i,
        {
            proof {
                reveal(Seq::filter);
                assert(all.take(i + 1).drop_last() =~= all.take(i as int));
            }
            let ghost before = matching.deep_view();
            if eq_ignore_ascii_case(self.keys[i].table_name.as_str(), table_name) {
                matching.push(&self.keys[i]);
                assert(matching.deep_view() =~= before.push(all[i as int]));
            }
            i += 1;
        }
        assert(all.take(i as int) =~= all);
        let ghost keys = matching.deep_view();
        assert(keys == self@.matching(table));
        if matching.len() == 0 {
            return ColumnLeg::NoLeg;
        }
        let first: usize = matching[0].leg;
        let mut uniform: bool = true;
        let mut j: usize = 0;
        while j < matching.len()
            invariant
                0 <= j <= matching.len(),
                matching.len() > 0,
                keys == matching.deep_view(),
                first == keys[0].leg,
                uniform == (forall|k: int|
                    0 <= k < j ==> (#[trigger] keys[k]).leg == keys[0].leg),
            decreases matching.len() - j,
        {
            assert(keys[j as int].leg == matching@[j as int].leg);
            if matching[j].leg != first {
                uniform = false;
            }
            j += 1;
        }
        if uniform {
            return ColumnLeg::Leg(first);
        }
        let alias = find_member_text(column, "tableAlias");
        let mut k: usize = 0;
        assert(keys.skip(0) =~= keys);
        while k < matching.len()
            invariant
                0 <= k <= matching.len(),
                keys == matching.deep_view(),
                keys == self@.matching(table),
                keys.len() > 0,
                exists|i: int| 0 <= i < keys.len() && (#[trigger] keys[i]).leg != keys[0].leg,
                member_text(column.deep_view(), "tableName"@) == Some(table),
                member_text(column.deep_view(), "tableAlias"@) == alias.deep_view(),
                first_with_alias(keys, alias.deep_view()) == first_with_alias(
                    keys.skip(k as int),
                    alias.deep_view(),
                ),
            decreases matching.len() - k,
        {
            assert(keys.skip(k as int)[0] == keys[k as int]);
            assert(keys.skip(k as int).skip(1) =~= keys.skip(k + 1));
            if same_alias(&matching[k].table_alias, alias) {
                return ColumnLeg::Leg(matching[k].leg);
            }
            k += 1;
        }
        ColumnLeg::Unattributable
    }

    /// The legs that a tree refers to.
    pub fn legs_referenced(&self, expr: &Json) -> (referenced: LegReferences)
        ensures
            referenced.legs@ == self@.legs_of(column_nodes(expr@)),
            referenced.any_column == (column_nodes(expr@).len() > 0),
            referenced.has_unattributed == !self@.all_attributed(column_nodes(expr@)),
    {
        let columns = columns_of(expr);
        let ghost views = columns.deep_view();
        let mut referenced = LegReferences {
            legs: BTreeSet::new(),
            has_unattributed: false,
            any_column: columns.len() > 0,
        };
        let mut i: usize = 0;
        assert(referenced.legs@ =~= self@.legs_of(views.take(0)));
        while i < columns.len()
            invariant
                0 <= i <= columns.len(),
                views == columns.deep_view(),
                referenced.any_column == (columns.len() > 0),
                referenced.legs@ == self@.legs_of(views.take(i as int)),
                referenced.has_unattributed == !self@.all_attributed(views.take(i as int)),
            decreases columns.len() - i,
        {
            let ghost done = views.take(i as int);
            let ghost more = views.take(i + 1);
            assert(more =~= done.push(views[i as int]));
            let resolved = self.resolve_column(columns[i]);
            assert(more[i as int] == views[i as int]);
            assert(forall|j: int| 0 <= j < i ==> more[j] == done[j]);
            match resolved {
                ColumnLeg::Leg(leg) => {
                    referenced.legs.insert(leg);
                    assert(self@.refers_to(more, leg));
                },
                ColumnLeg::NoLeg | ColumnLeg::Unattributable => {
                    referenced.has_unattributed = true;
                },
            }
            proof {
                assert forall|l: usize| self@.refers_to(done, l) implies self@.refers_to(
                    more,
                    l,
                ) by {
                    let j = choose|j: int|
                        0 <= j < done.len() && self@.resolve(#[trigger] done[j])
                            == ColumnLeg::Leg(l);
                    assert(more[j] == done[j]);
                }
                assert forall|l: usize| self@.refers_to(more, l) implies self@.refers_to(done, l)
                    || resolved == ColumnLeg::Leg(l) by {
                    let j = choose|j: int|
                        0 <= j < more.len() && self@.resolve(#[trigger] more[j])
                            == ColumnLeg::Leg(l);
                    if j < done.len() {
                        assert(done[j] == more[j]);
                    }
                }
                assert(referenced.legs@ =~= self@.legs_of(more));
            }
            i += 1;
        }
        assert(views.take(i as int) =~= views);
        referenced
    }

    /// The highest leg a tree refers to: the earliest join point of a left-to-right chain at
    /// which each of its legs is in scope. `None` when the tree has no column or an unattributed
    /// one, so that it has to be applied where every leg is in scope.
    pub fn attachment_leg(&self, expr: &Json) -> (leg: Option<usize>)
        ensures
            leg == self@.attachment(expr@),
    {
        let referenced = self.legs_referenced(expr);
        if !referenced.any_column || referenced.has_unattributed {
            return None;
        }
        let ghost columns = column_nodes(expr@);
        let mut highest: usize = 0;
        for leg in it: referenced.legs.iter()
            invariant
                referenced.legs@ == self@.legs_of(columns),
                it.seq().unref().to_set() == referenced.legs@,
                forall|k: int| 0 <= k < it.index() ==> *(#[trigger] it.seq()[k]) <= highest,
                it.index() > 0 ==> referenced.legs@.contains(highest),
                it.index() == 0 ==> highest == 0,
        {
            proof {
                assert(it.seq().unref()[it.index() as int] == *leg);
                assert(it.seq().unref().to_set().contains(*leg));
            }
            if highest <= *leg {
                highest = *leg;
            }
        }
        proof {
            lemma_highest(self@, columns);
            let top = self@.highest(columns);
            assert(referenced.legs@.contains(top));
            assert(referenced.legs@.len() > 0);
        }
        Some(highest)
    }

    /// The leg that every column of a conjunct belongs to. `None` when the conjunct has no
    /// column, an unattributed column, or spans several legs.
    pub fn conjunct_leg(&self, conjunct: &Json) -> (leg: Option<usize>)
        ensures
            leg == self@.sole_leg(conjunct@),
    {
        let referenced = self.legs_referenced(conjunct);
        let ghost columns = column_nodes(conjunct@);
        if referenced.has_unattributed || !referenced.any_column {
            return None;
        }
        let mut sole: Option<usize> = None;
        let mut several: bool = false;
        for leg in it: referenced.legs.iter()
            invariant
                it.seq().unref().to_set() == referenced.legs@,
                it.index() == 0 ==> sole is None && !several,
                it.index() > 0 ==> sole is Some && referenced.legs@.contains(sole->0),
                !several ==> forall|k: int|
                    0 <= k < it.index() ==> *(#[trigger] it.seq()[k]) == sole->0,
                several ==> exists|other: usize| #[trigger]
                    referenced.legs@.contains(other) && other != sole->0,
        {
            proof {
                assert(it.seq().unref()[it.index() as int] == *leg);
                assert(it.seq().unref().to_set().contains(*leg));
                assert(*it.seq()[it.index() as int] == *leg);
            }
            match sole {
                Some(first) => if *leg != first {
                    several = true;
                },
                None => {
                    sole = Some(*leg);
                },
            }
        }
        proof {
            let first = self@.resolve(columns[0])->Leg_0;
            assert(self@.resolve(columns[0]) == ColumnLeg::Leg(first));
            assert(self@.refers_to(columns, first));
            assert(referenced.legs@.contains(first));
            assert(referenced.legs@.contains(sole->0));
            if several {
                let other = choose|other: usize| #[trigger]
                    referenced.legs@.contains(other) && other != sole->0;
                assert(self@.refers_to(columns, other));
                assert(self@.refers_to(columns, sole->0));
            } else {
                assert forall|i: int| 0 <= i < columns.len() implies self@.resolve(
                    #[trigger] columns[i],
                ) == ColumnLeg::Leg(sole->0) by {
                    let l = self@.resolve(columns[i])->Leg_0;
                    assert(self@.refers_to(columns, l));
                    assert(referenced.legs@.contains(l));
                }
            }
        }
        if several {
            None
        } else {
            sole
        }
    }

    /// Sets the `tableAlias` of each column of a tree to the alias of its leg, since a bare name
    /// is ambiguous once a table occurs on several legs. Columns of no leg stay as they are.
    pub fn qualify(&self, expr: &Json) -> (result: Result<Json, UnattributableColumn>)
        ensures
            match result {
                Ok(tree) => self@.qualified(expr@) == Ok::<JsonV, UnattributableColumnV>(tree@),
                Err(column) => self@.qualified(expr@) == Err::<JsonV, UnattributableColumnV>(
                    column@,
                ),
            },
        decreases *expr,
    {
        match expr {
            Json::Object(members) => {
                let ghost views = members.deep_view();
                let mut out: Members = Vec::new();
                let mut i: usize = 0;
                assert(out.deep_view() =~= Seq::empty());
                while i < members.len()
                    invariant
                        0 <= i <= members.len(),
                        *expr == Json::Object(*members),
                        views == members.deep_view(),
                        self@.qualified_members(views.take(i as int)) == Ok::<
                            MembersV,
                            UnattributableColumnV,
                        >(out.deep_view()),
                    decreases members.len() - i,
                {
                    assert(decreases_to!(*expr => expr->Object_0@[i as int].1));
                    assert(views.take(i + 1).drop_last() =~= views.take(i as int));
                    let ghost before = out.deep_view();
                    match self.qualify(&members[i].1) {
                        Ok(value) => {
                            let key = members[i].0.clone();
                            out.push((key, value));
                            assert(out.deep_view() =~= before.push((key@, value@)));
                        },
                        Err(column) => {
                            proof {
                                lemma_members_error(self@, views, i + 1);
                            }
                            return Err(column);
                        },
                    }
                    i += 1;
                }
                assert(views.take(i as int) =~= views);
                let own = match find_member_text(members, "type") {
                    Some(kind) => same_text(kind, "column"),
                    None => false,
                };
                if own {
                    match self.resolve_column(members) {
                        ColumnLeg::Leg(leg) => {
                            set_member(&mut out, "tableAlias", Json::Str(self.leg_alias(leg)));
                        },
                        ColumnLeg::NoLeg => {},
                        ColumnLeg::Unattributable => {
                            return Err(UnattributableColumn::of(members));
                        },
                    }
                }
                Ok(Json::Object(out))
            },
            Json::Array(items) => {
                let ghost views = items.deep_view();
                let mut out: Vec<Json> = Vec::new();
                let mut i: usize = 0;
                assert(out.deep_view() =~= Seq::empty());
                while i < items.len()
                    invariant
                        0 <= i <= items.len(),
                        *expr == Json::Array(*items),
                        views == items.deep_view(),
                        self@.qualified_items(views.take(i as int)) == Ok::<
                            Seq<JsonV>,
                            UnattributableColumnV,
                        >(out.deep_view()),
                    decreases items.len() - i,
                {
                    assert(decreases_to!(*expr => expr->Array_0@[i as int]));
                    assert(views.take(i + 1).drop_last() =~= views.take(i as int));
                    let ghost before = out.deep_view();
                    match self.qualify(&items[i]) {
                        Ok(value) => {
                            out.push(value);
                            assert(out.deep_view() =~= before.push(value@));
                        },
                        Err(column) => {
                            proof {
                                lemma_items_error(self@, views, i + 1);
                            }
                            return Err(column);
                        },
                    }
                    i += 1;
                }
                assert(views.take(i as int) =~= views);
                Ok(Json::Array(out))
            },
            _ => Ok(expr.clone()),
        }
    }
}

/// The first error among the members is the error of all of them.
proof fn lemma_members_error(legs: JoinLegsV, members: MembersV, n: int)
    requires
        0 <= n <= members.len(),
        legs.qualified_members(members.take(n)) is Err,
    ensures
        legs.qualified_members(members) == legs.qualified_members(members.take(n)),
    decreases members.len() - n,
{
    if n == members.len() {
        assert(members.take(n) =~= members);
    } else {
        assert(members.take(n + 1).drop_last() =~= members.take(n));
        lemma_members_error(legs, members, n + 1);
    }
}

/// The first error among the items is the error of all of them.
proof fn lemma_items_error(legs: JoinLegsV, items: Seq<JsonV>, n: int)
    requires
        0 <= n <= items.len(),
        legs.qualified_items(items.take(n)) is Err,
    ensures
        legs.qualified_items(items) == legs.qualified_items(items.take(n)),
    decreases items.len() - n,
{
    if n == items.len() {
        assert(items.take(n) =~= items);
    } else {
        assert(items.take(n + 1).drop_last() =~= items.take(n));
        lemma_items_error(legs, items, n + 1);
    }
}

impl DetectedJoin {
    /// One leg per table occurrence, left to right, so that the occurrences of a self-joined
    /// table stay distinct legs.
    pub fn legs(&self) -> (legs: JoinLegs)
        ensures
            legs@ == JoinLegsV::of_leaves(self.tables.deep_view()),
    {
        JoinLegs::from_leaves(&self.tables)
    }
}

} // verus!
