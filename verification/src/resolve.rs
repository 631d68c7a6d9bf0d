use vstd::prelude::*;
use vstd::string::{StringExecFns, StrSliceExecFns};
use crate::types::clone_type;
use crate::method::{NativeMethod, MethodV, clone_method};
use crate::translate::{
    FfiSignature, SigV, NameStrategy, spec_method_caption, method_caption,
};
use crate::text::{lex_le, str_le, str_eq, lemma_lex_le_total, lemma_lex_le_trans};

verus! {

/// A translated candidate: a method paired with its FFI signature, not yet
/// named.
#[derive(Debug)]
pub struct Candidate {
    pub method: NativeMethod,
    pub sig: FfiSignature,
}

/// Mathematical model of `Candidate`.
#[verifier::ext_equal]
pub struct CandV {
    pub method: MethodV,
    pub sig: SigV,
}

impl View for Candidate {
    type V = CandV;

    open spec fn view(&self) -> CandV {
        CandV { method: self.method@, sig: self.sig@ }
    }
}

/// A finally named FFI method; the exported name is unique across a run.
#[derive(Debug)]
pub struct NamedFfiMethod {
    pub method: NativeMethod,
    pub sig: FfiSignature,
    pub name: String,
}

/// Mathematical model of `NamedFfiMethod`.
#[verifier::ext_equal]
pub struct NamedV {
    pub method: MethodV,
    pub sig: SigV,
    pub name: Seq<char>,
}

impl View for NamedFfiMethod {
    type V = NamedV;

    open spec fn view(&self) -> NamedV {
        NamedV { method: self.method@, sig: self.sig@, name: self.name@ }
    }
}

/// One collision group: every candidate sharing one base name.
#[derive(Debug)]
pub struct Group {
    pub name: String,
    pub members: Vec<Candidate>,
}

/// Mathematical model of `Group`.
#[verifier::ext_equal]
pub struct GroupV {
    pub name: Seq<char>,
    pub members: Seq<CandV>,
}

impl View for Group {
    type V = GroupV;

    open spec fn view(&self) -> GroupV {
        GroupV { name: self.name@, members: Seq::new(self.members@.len(), |i: int| self.members@[i]@) }
    }
}

pub open spec fn cands_view(s: Seq<Candidate>) -> Seq<CandV> {
    Seq::new(s.len(), |i: int| s[i]@)
}

pub open spec fn named_view(s: Seq<NamedFfiMethod>) -> Seq<NamedV> {
    Seq::new(s.len(), |i: int| s[i]@)
}

pub open spec fn groups_view(s: Seq<Group>) -> Seq<GroupV> {
    Seq::new(s.len(), |i: int| s[i]@)
}

/// The index of the group carrying `name`, or -1 if there is none.
pub open spec fn spec_group_index(gs: Seq<GroupV>, name: Seq<char>) -> int
    decreases gs.len(),
{
    if gs.len() == 0 {
        -1
    } else if gs[0].name == name {
        0
    } else {
        let r = spec_group_index(gs.drop_first(), name);
        if r == -1 {
            -1
        } else {
            r + 1
        }
    }
}

pub proof fn lemma_group_index(gs: Seq<GroupV>, name: Seq<char>)
    ensures
        spec_group_index(gs, name) == -1 || (0 <= spec_group_index(gs, name) < gs.len()
            && gs[spec_group_index(gs, name)].name == name),
        spec_group_index(gs, name) == -1 ==> forall|i: int|
            0 <= i < gs.len() ==> (#[trigger] gs[i]).name != name,
    decreases gs.len(),
{
    if gs.len() > 0 && gs[0].name != name {
        lemma_group_index(gs.drop_first(), name);
        assert forall|i: int| spec_group_index(gs, name) == -1 && 0 <= i < gs.len() implies (
        #[trigger] gs[i]).name != name by {
            if i > 0 {
                assert(gs.drop_first()[i - 1] == gs[i]);
            }
        }
    }
}

/// Adding one named candidate to the group map: append to the group with
/// that base name, or open a new group at the end.
pub open spec fn spec_add_to_group(gs: Seq<GroupV>, name: Seq<char>, c: CandV) -> Seq<GroupV> {
    let i = spec_group_index(gs, name);
    if i == -1 {
        gs.push(GroupV { name, members: seq![c] })
    } else {
        gs.update(i, GroupV { name, members: gs[i].members.push(c) })
    }
}

/// Appends candidate `c` under base name `name` in the group list.
pub fn add_to_group(gs: &mut Vec<Group>, name: String, c: Candidate)
    ensures
        groups_view(final(gs)@) == spec_add_to_group(groups_view(old(gs)@), name@, c@),
{
    let ghost gv0 = groups_view(old(gs)@);
    proof {
        lemma_group_index(gv0, name@);
    }
    let mut i: usize = 0;
    #[verifier::loop_isolation(false)]
    while i < gs.len()
        invariant
            0 <= i <= gs.len(),
            gs@ == old(gs)@,
            forall|j: int| 0 <= j < i ==> (#[trigger] gv0[j]).name != name@,
        decreases gs.len() - i,
    {
        if str_eq(gs[i].name.as_str(), name.as_str()) {
            proof {
                assert(gv0[i as int].name == name@);
                assert(spec_group_index(gv0, name@) != -1);
                lemma_group_index_unique(gv0, name@, i as int);
            }
            let mut g = gs.remove(i);
            g.members.push(c);
            gs.insert(i, g);
            proof {
                assert(groups_view(gs@) =~~= spec_add_to_group(gv0, name@, c@));
            }
            return ;
        }
        i += 1;
    }
    proof {
        assert(spec_group_index(gv0, name@) == -1);
    }
    gs.push(Group { name, members: vec![c] });
    proof {
        assert(groups_view(gs@) =~~= spec_add_to_group(gv0, name@, c@));
    }
}

/// If `gs[i]` carries `name` and no earlier group does, the group index is `i`.
pub proof fn lemma_group_index_unique(gs: Seq<GroupV>, name: Seq<char>, i: int)
    requires
        0 <= i < gs.len(),
        gs[i].name == name,
        forall|j: int| 0 <= j < i ==> (#[trigger] gs[j]).name != name,
    ensures
        spec_group_index(gs, name) == i,
    decreases i,
{
    if i > 0 {
        lemma_group_index_unique(gs.drop_first(), name, i - 1);
    }
}

/// The captions of all group members under one strategy.
pub open spec fn spec_captions(ms: Seq<CandV>, strat: NameStrategy) -> Seq<Seq<char>> {
    Seq::new(ms.len(), |i: int| spec_method_caption(ms[i].method, ms[i].sig.arg_types, strat))
}

/// Pairwise distinctness of a caption list.
pub open spec fn pairwise_distinct(s: Seq<Seq<char>>) -> bool {
    forall|i: int, j: int| 0 <= i < j < s.len() ==> s[i] != s[j]
}

/// The first strategy of the ladder whose captions are pairwise distinct
/// for the whole group, if any: least verbose first.
pub open spec fn spec_strategy_for(ms: Seq<CandV>) -> Option<NameStrategy> {
    if pairwise_distinct(spec_captions(ms, NameStrategy::ArgsShort)) {
        Option::Some(NameStrategy::ArgsShort)
    } else if pairwise_distinct(spec_captions(ms, NameStrategy::ArgsFull)) {
        Option::Some(NameStrategy::ArgsFull)
    } else if pairwise_distinct(spec_captions(ms, NameStrategy::ConstArgsFull)) {
        Option::Some(NameStrategy::ConstArgsFull)
    } else {
        Option::None
    }
}

/// A base name decorated with a caption; an empty caption leaves the base
/// name unchanged.
pub open spec fn spec_decorated(base: Seq<char>, caption: Seq<char>) -> Seq<char> {
    if caption.len() == 0 {
        base
    } else {
        base + "_"@ + caption
    }
}

/// The final names of one group: a singleton keeps the base name; a larger
/// group takes the first strategy that disambiguates it, or fails.
pub open spec fn spec_group_names(g: GroupV) -> Option<Seq<NamedV>> {
    if g.members.len() == 1 {
        Option::Some(
            seq![NamedV { method: g.members[0].method, sig: g.members[0].sig, name: g.name }],
        )
    } else {
        match spec_strategy_for(g.members) {
            Option::Some(strat) => Option::Some(
                Seq::new(
                    g.members.len(),
                    |i: int| NamedV {
                        method: g.members[i].method,
                        sig: g.members[i].sig,
                        name: spec_decorated(
                            g.name,
                            spec_method_caption(
                                g.members[i].method,
                                g.members[i].sig.arg_types,
                                strat,
                            ),
                        ),
                    },
                ),
            ),
            Option::None => Option::None,
        }
    }
}

/// Structurally copies an FFI signature; the copy has the same view.
pub fn clone_sig(s: &FfiSignature) -> (r: FfiSignature)
    ensures
        r@ == s@,
{
    let r = FfiSignature {
        arg_types: crate::types::clone_types(&s.arg_types),
        return_type: clone_type(&s.return_type),
        place: s.place,
    };
    proof {
        assert(r@ =~= s@);
    }
    r
}

fn captions_of(g: &Group, strat: NameStrategy) -> (r: Vec<String>)
    ensures
        r@.len() == g@.members.len(),
        forall|i: int|
            0 <= i < r@.len() ==> (#[trigger] r@[i])@ == spec_captions(g@.members, strat)[i],
{
    let mut r: Vec<String> = Vec::new();
    let mut i: usize = 0;
    #[verifier::loop_isolation(false)]
    while i < g.members.len()
        invariant
            0 <= i <= g.members.len(),
            r@.len() == i,
            forall|j: int|
                0 <= j < i ==> (#[trigger] r@[j])@ == spec_captions(g@.members, strat)[j],
        decreases g.members.len() - i,
    {
        let c = method_caption(&g.members[i].method, &g.members[i].sig, strat);
        r.push(c);
        i += 1;
    }
    r
}

fn all_distinct(cs: &Vec<String>) -> (r: bool)
    ensures
        r == pairwise_distinct(crate::method::strings_view(cs@)),
{
    let n = cs.len();
    let mut i: usize = 0;
    #[verifier::loop_isolation(false)]
    while i < n
        invariant
            0 <= i <= n,
            forall|a: int, b: int| 0 <= a < b < cs@.len() && a < i ==> cs@[a]@ != cs@[b]@,
        decreases n - i,
    {
        let mut j: usize = i + 1;
        #[verifier::loop_isolation(false)]
        while j < n
            invariant
                i < j <= n,
                forall|b: int| (i as int) < b < j ==> cs@[i as int]@ != cs@[b]@,
            decreases n - j,
        {
            if str_eq(cs[i].as_str(), cs[j].as_str()) {
                proof {
                    assert(crate::method::strings_view(cs@)[i as int] == crate::method::strings_view(
                        cs@,
                    )[j as int]);
                }
                return false;
            }
            j += 1;
        }
        i += 1;
    }
    true
}

/// Picks the first strategy of the ladder that disambiguates the group.
fn strategy_for(g: &Group) -> (r: Option<NameStrategy>)
    ensures
        r == spec_strategy_for(g@.members),
{
    let c1 = captions_of(g, NameStrategy::ArgsShort);
    proof {
        assert(crate::method::strings_view(c1@) =~= spec_captions(
            g@.members,
            NameStrategy::ArgsShort,
        ));
    }
    if all_distinct(&c1) {
        return Option::Some(NameStrategy::ArgsShort);
    }
    let c2 = captions_of(g, NameStrategy::ArgsFull);
    proof {
        assert(crate::method::strings_view(c2@) =~= spec_captions(
            g@.members,
            NameStrategy::ArgsFull,
        ));
    }
    if all_distinct(&c2) {
        return Option::Some(NameStrategy::ArgsFull);
    }
    let c3 = captions_of(g, NameStrategy::ConstArgsFull);
    proof {
        assert(crate::method::strings_view(c3@) =~= spec_captions(
            g@.members,
            NameStrategy::ConstArgsFull,
        ));
    }
    if all_distinct(&c3) {
        return Option::Some(NameStrategy::ConstArgsFull);
    }
    Option::None
}

/// The methods of a group, for collision reporting.
pub open spec fn spec_group_methods(ms: Seq<CandV>) -> Seq<MethodV> {
    Seq::new(ms.len(), |i: int| ms[i].method)
}

/// Resolves one group into finally named methods, or reports every
/// colliding method when no strategy of the ladder disambiguates it.
pub fn resolve_group(g: &Group) -> (r: Result<Vec<NamedFfiMethod>, Vec<NativeMethod>>)
    ensures
        r is Ok <==> spec_group_names(g@) is Some,
        r is Ok ==> named_view(r->Ok_0@) == spec_group_names(g@)->0,
        r is Err ==> crate::method::methods_view(r->Err_0@) == spec_group_methods(g@.members),
{
    if g.members.len() == 1 {
        let named = NamedFfiMethod {
            method: clone_method(&g.members[0].method),
            sig: clone_sig(&g.members[0].sig),
            name: g.name.clone(),
        };
        let mut out: Vec<NamedFfiMethod> = Vec::new();
        out.push(named);
        proof {
            assert(named_view(out@) =~= spec_group_names(g@)->0);
        }
        return Result::Ok(out);
    }
    match strategy_for(g) {
        Option::Some(strat) => {
            let mut out: Vec<NamedFfiMethod> = Vec::new();
            let mut i: usize = 0;
            #[verifier::loop_isolation(false)]
            while i < g.members.len()
                invariant
                    0 <= i <= g.members.len(),
                    out@.len() == i,
                    g.members@.len() != 1,
                    spec_strategy_for(g@.members) == Option::Some(strat),
                    forall|j: int|
                        0 <= j < i ==> (#[trigger] out@[j])@ == spec_group_names(g@)->0[j],
                decreases g.members.len() - i,
            {
                let caption = method_caption(&g.members[i].method, &g.members[i].sig, strat);
                let name = if caption.unicode_len() == 0 {
                    g.name.clone()
                } else {
                    let mut n = g.name.clone();
                    n.append("_");
                    n.append(caption.as_str());
                    n
                };
                let named = NamedFfiMethod {
                    method: clone_method(&g.members[i].method),
                    sig: clone_sig(&g.members[i].sig),
                    name,
                };
                out.push(named);
                proof {
                    assert(out@[i as int]@ =~= spec_group_names(g@)->0[i as int]);
                }
                i += 1;
            }
            proof {
                assert(named_view(out@) =~= spec_group_names(g@)->0);
            }
            Result::Ok(out)
        },
        Option::None => {
            let mut out: Vec<NativeMethod> = Vec::new();
            let mut i: usize = 0;
            #[verifier::loop_isolation(false)]
            while i < g.members.len()
                invariant
                    0 <= i <= g.members.len(),
                    out@.len() == i,
                    forall|j: int|
                        0 <= j < i ==> (#[trigger] out@[j])@ == spec_group_methods(g@.members)[j],
                decreases g.members.len() - i,
            {
                let m = clone_method(&g.members[i].method);
                out.push(m);
                i += 1;
            }
            proof {
                assert(crate::method::methods_view(out@) =~= spec_group_methods(g@.members));
            }
            Result::Err(out)
        },
    }
}


/// Insertion into a name-sorted list, before the first entry not below `x`.
pub open spec fn spec_insert_named(x: NamedV, s: Seq<NamedV>) -> Seq<NamedV>
    decreases s.len(),
{
    if s.len() == 0 {
        seq![x]
    } else if lex_le(x.name, s[0].name) {
        seq![x] + s
    } else {
        seq![s[0]] + spec_insert_named(x, s.drop_first())
    }
}

/// Insertion sort by exported name, for run-to-run reproducibility.
pub open spec fn spec_sort_named(s: Seq<NamedV>) -> Seq<NamedV>
    decreases s.len(),
{
    if s.len() == 0 {
        Seq::empty()
    } else {
        spec_insert_named(s.last(), spec_sort_named(s.drop_last()))
    }
}

pub open spec fn sorted_by_name(s: Seq<NamedV>) -> bool {
    forall|i: int, j: int| 0 <= i < j < s.len() ==> lex_le(s[i].name, s[j].name)
}

/// Every element of an insertion is the inserted one or one of the list.
pub proof fn lemma_insert_named_elems(x: NamedV, s: Seq<NamedV>)
    ensures
        spec_insert_named(x, s).len() == s.len() + 1,
        forall|k: int|
            0 <= k < s.len() + 1 ==> (#[trigger] spec_insert_named(x, s)[k] == x || exists|j: int|
                0 <= j < s.len() && s[j] == spec_insert_named(x, s)[k]),
    decreases s.len(),
{
    if s.len() > 0 && !lex_le(x.name, s[0].name) {
        lemma_insert_named_elems(x, s.drop_first());
        assert forall|k: int| 0 <= k < s.len() + 1 implies (#[trigger] spec_insert_named(x, s)[k]
            == x || exists|j: int| 0 <= j < s.len() && s[j] == spec_insert_named(x, s)[k]) by {
            if k > 0 {
                let ins = spec_insert_named(x, s.drop_first());
                assert(spec_insert_named(x, s)[k] == ins[k - 1]);
                if ins[k - 1] != x {
                    let j = choose|j: int|
                        0 <= j < s.drop_first().len() && s.drop_first()[j] == ins[k - 1];
                    assert(s[j + 1] == ins[k - 1]);
                }
            }
        }
    }
}

/// Insertion into a sorted list keeps it sorted.
pub proof fn lemma_insert_named_sorted(x: NamedV, s: Seq<NamedV>)
    requires
        sorted_by_name(s),
    ensures
        sorted_by_name(spec_insert_named(x, s)),
    decreases s.len(),
{
    if s.len() > 0 {
        if lex_le(x.name, s[0].name) {
            assert forall|i: int, j: int|
                0 <= i < j < spec_insert_named(x, s).len() implies lex_le(
                spec_insert_named(x, s)[i].name,
                spec_insert_named(x, s)[j].name,
            ) by {
                if i == 0 && j > 0 {
                    if j > 1 {
                        lemma_lex_le_trans(x.name, s[0].name, s[j - 1].name);
                    }
                }
            }
        } else {
            lemma_lex_le_total(x.name, s[0].name);
            assert(sorted_by_name(s.drop_first()));
            lemma_insert_named_sorted(x, s.drop_first());
            lemma_insert_named_elems(x, s.drop_first());
            let ins = spec_insert_named(x, s.drop_first());
            assert forall|i: int, j: int|
                0 <= i < j < spec_insert_named(x, s).len() implies lex_le(
                spec_insert_named(x, s)[i].name,
                spec_insert_named(x, s)[j].name,
            ) by {
                if i == 0 {
                    let y = ins[j - 1];
                    assert(spec_insert_named(x, s)[j] == y);
                    if y == x {
                        assert(lex_le(s[0].name, x.name));
                    } else {
                        let w = choose|w: int|
                            0 <= w < s.drop_first().len() && s.drop_first()[w] == y;
                        assert(s[w + 1] == y);
                        assert(lex_le(s[0].name, s[w + 1].name));
                    }
                } else {
                    assert(spec_insert_named(x, s)[i] == ins[i - 1]);
                    assert(spec_insert_named(x, s)[j] == ins[j - 1]);
                }
            }
        }
    }
}

/// The sort of any list is sorted.
pub proof fn lemma_sort_named_sorted(s: Seq<NamedV>)
    ensures
        sorted_by_name(spec_sort_named(s)),
        spec_sort_named(s).len() == s.len(),
    decreases s.len(),
{
    if s.len() > 0 {
        lemma_sort_named_sorted(s.drop_last());
        lemma_insert_named_sorted(s.last(), spec_sort_named(s.drop_last()));
        lemma_insert_named_elems(s.last(), spec_sort_named(s.drop_last()));
    }
}

/// Sorting permutes: every element of the sort is an element of the list,
/// and the lengths agree.
pub proof fn lemma_sort_named_elems(s: Seq<NamedV>)
    ensures
        spec_sort_named(s).len() == s.len(),
        forall|k: int|
            0 <= k < s.len() ==> exists|j: int|
                0 <= j < s.len() && s[j] == #[trigger] spec_sort_named(s)[k],
    decreases s.len(),
{
    if s.len() > 0 {
        lemma_sort_named_elems(s.drop_last());
        lemma_insert_named_elems(s.last(), spec_sort_named(s.drop_last()));
        let srt = spec_sort_named(s);
        let prev = spec_sort_named(s.drop_last());
        assert forall|k: int| 0 <= k < s.len() implies exists|j: int|
            0 <= j < s.len() && s[j] == #[trigger] srt[k] by {
            if srt[k] == s.last() {
                assert(s[s.len() - 1] == srt[k]);
            } else {
                let w = choose|w: int| 0 <= w < prev.len() && prev[w] == srt[k];
                let j = choose|j: int| 0 <= j < s.drop_last().len() && s.drop_last()[j] == prev[w];
                assert(s[j] == srt[k]);
            }
        }
    }
}

/// `spec_insert_named` is the plain insertion at the found position.
pub proof fn lemma_insert_named_at(x: NamedV, s: Seq<NamedV>, pos: int)
    requires
        0 <= pos <= s.len(),
        forall|j: int| 0 <= j < pos ==> !lex_le(x.name, (#[trigger] s[j]).name),
        pos < s.len() ==> lex_le(x.name, s[pos].name),
    ensures
        spec_insert_named(x, s) == s.insert(pos, x),
    decreases pos,
{
    if pos == 0 {
        if s.len() == 0 {
            assert(spec_insert_named(x, s) =~= s.insert(0, x));
        } else {
            assert(spec_insert_named(x, s) =~= s.insert(0, x));
        }
    } else {
        assert(!lex_le(x.name, s[0].name));
        lemma_insert_named_at(x, s.drop_first(), pos - 1);
        assert(seq![s[0]] + s.drop_first().insert(pos - 1, x) =~= s.insert(pos, x));
    }
}

fn insert_named(acc: &mut Vec<NamedFfiMethod>, x: NamedFfiMethod)
    ensures
        named_view(final(acc)@) == spec_insert_named(x@, named_view(old(acc)@)),
{
    let ghost v0 = named_view(old(acc)@);
    let mut pos: usize = 0;
    #[verifier::loop_isolation(false)]
    while pos < acc.len() && !str_le(x.name.as_str(), acc[pos].name.as_str())
        invariant
            0 <= pos <= acc.len(),
            acc@ == old(acc)@,
            forall|j: int| 0 <= j < pos ==> !lex_le(x@.name, (#[trigger] v0[j]).name),
        decreases acc.len() - pos,
    {
        pos += 1;
    }
    proof {
        lemma_insert_named_at(x@, v0, pos as int);
    }
    acc.insert(pos, x);
    proof {
        assert(named_view(acc@) =~= v0.insert(pos as int, x@));
    }
}

/// Structurally copies a named method; the copy has the same view.
pub fn clone_named(x: &NamedFfiMethod) -> (r: NamedFfiMethod)
    ensures
        r@ == x@,
{
    NamedFfiMethod {
        method: clone_method(&x.method),
        sig: clone_sig(&x.sig),
        name: x.name.clone(),
    }
}

/// Sorts the finally named methods by exported name.
pub fn sort_named(v: &Vec<NamedFfiMethod>) -> (r: Vec<NamedFfiMethod>)
    ensures
        named_view(r@) == spec_sort_named(named_view(v@)),
{
    let mut acc: Vec<NamedFfiMethod> = Vec::new();
    let mut i: usize = 0;
    proof {
        assert(named_view(v@).take(0) =~= Seq::<NamedV>::empty());
        assert(named_view(acc@) =~= Seq::<NamedV>::empty());
    }
    #[verifier::loop_isolation(false)]
    while i < v.len()
        invariant
            0 <= i <= v.len(),
            named_view(acc@) == spec_sort_named(named_view(v@).take(i as int)),
        decreases v.len() - i,
    {
        let x = clone_named(&v[i]);
        insert_named(&mut acc, x);
        proof {
            let vs = named_view(v@);
            assert(vs.take(i + 1).drop_last() =~= vs.take(i as int));
            assert(vs.take(i + 1).last() == vs[i as int]);
        }
        i += 1;
    }
    proof {
        assert(named_view(v@).take(v@.len() as int) =~= named_view(v@));
    }
    acc
}

/// Insertion into a sorted string list.
pub open spec fn spec_insert_str(x: Seq<char>, s: Seq<Seq<char>>) -> Seq<Seq<char>>
    decreases s.len(),
{
    if s.len() == 0 {
        seq![x]
    } else if lex_le(x, s[0]) {
        seq![x] + s
    } else {
        seq![s[0]] + spec_insert_str(x, s.drop_first())
    }
}

/// Insertion sort of a string list.
pub open spec fn spec_sort_str(s: Seq<Seq<char>>) -> Seq<Seq<char>>
    decreases s.len(),
{
    if s.len() == 0 {
        Seq::empty()
    } else {
        spec_insert_str(s.last(), spec_sort_str(s.drop_last()))
    }
}

/// Removes adjacent equal entries of a list; on a sorted list this removes
/// every duplicate.
pub open spec fn spec_dedup_adjacent(s: Seq<Seq<char>>) -> Seq<Seq<char>>
    decreases s.len(),
{
    if s.len() <= 1 {
        s
    } else if s.last() == s[s.len() - 2] {
        spec_dedup_adjacent(s.drop_last())
    } else {
        spec_dedup_adjacent(s.drop_last()).push(s.last())
    }
}

/// `spec_insert_str` is the plain insertion at the found position.
pub proof fn lemma_insert_str_at(x: Seq<char>, s: Seq<Seq<char>>, pos: int)
    requires
        0 <= pos <= s.len(),
        forall|j: int| 0 <= j < pos ==> !lex_le(x, #[trigger] s[j]),
        pos < s.len() ==> lex_le(x, s[pos]),
    ensures
        spec_insert_str(x, s) == s.insert(pos, x),
    decreases pos,
{
    if pos == 0 {
        assert(spec_insert_str(x, s) =~= s.insert(0, x));
    } else {
        assert(!lex_le(x, s[0]));
        lemma_insert_str_at(x, s.drop_first(), pos - 1);
        assert(seq![s[0]] + s.drop_first().insert(pos - 1, x) =~= s.insert(pos, x));
    }
}

fn insert_string(acc: &mut Vec<String>, x: String)
    ensures
        crate::method::strings_view(final(acc)@) == spec_insert_str(
            x@,
            crate::method::strings_view(old(acc)@),
        ),
{
    let ghost v0 = crate::method::strings_view(old(acc)@);
    let mut pos: usize = 0;
    #[verifier::loop_isolation(false)]
    while pos < acc.len() && !str_le(x.as_str(), acc[pos].as_str())
        invariant
            0 <= pos <= acc.len(),
            acc@ == old(acc)@,
            forall|j: int| 0 <= j < pos ==> !lex_le(x@, #[trigger] v0[j]),
        decreases acc.len() - pos,
    {
        pos += 1;
    }
    proof {
        lemma_insert_str_at(x@, v0, pos as int);
    }
    acc.insert(pos, x);
    proof {
        assert(crate::method::strings_view(acc@) =~= v0.insert(pos as int, x@));
    }
}

/// Sorts a string list and removes duplicates; the model is
/// `spec_dedup_adjacent` of `spec_sort_str`.
pub fn sort_dedup_strings(v: &Vec<String>) -> (r: Vec<String>)
    ensures
        crate::method::strings_view(r@) == spec_dedup_adjacent(
            spec_sort_str(crate::method::strings_view(v@)),
        ),
{
    let mut acc: Vec<String> = Vec::new();
    let mut i: usize = 0;
    proof {
        assert(crate::method::strings_view(v@).take(0) =~= Seq::<Seq<char>>::empty());
        assert(crate::method::strings_view(acc@) =~= Seq::<Seq<char>>::empty());
    }
    #[verifier::loop_isolation(false)]
    while i < v.len()
        invariant
            0 <= i <= v.len(),
            crate::method::strings_view(acc@) == spec_sort_str(
                crate::method::strings_view(v@).take(i as int),
            ),
        decreases v.len() - i,
    {
        let x = v[i].clone();
        insert_string(&mut acc, x);
        proof {
            let vs = crate::method::strings_view(v@);
            assert(vs.take(i + 1).drop_last() =~= vs.take(i as int));
            assert(vs.take(i + 1).last() == vs[i as int]);
        }
        i += 1;
    }
    proof {
        assert(crate::method::strings_view(v@).take(v@.len() as int) =~= crate::method::strings_view(
            v@,
        ));
    }
    let mut out: Vec<String> = Vec::new();
    let mut k: usize = 0;
    proof {
        assert(crate::method::strings_view(acc@).take(0) =~= Seq::<Seq<char>>::empty());
        assert(crate::method::strings_view(out@) =~= Seq::<Seq<char>>::empty());
        assert(spec_dedup_adjacent(Seq::<Seq<char>>::empty()) =~= Seq::<Seq<char>>::empty());
    }
    #[verifier::loop_isolation(false)]
    while k < acc.len()
        invariant
            0 <= k <= acc.len(),
            crate::method::strings_view(out@) == spec_dedup_adjacent(
                crate::method::strings_view(acc@).take(k as int),
            ),
        decreases acc.len() - k,
    {
        let keep = if k == 0 {
            true
        } else {
            !str_eq(acc[k].as_str(), acc[k - 1].as_str())
        };
        proof {
            let vs = crate::method::strings_view(acc@);
            assert(vs.take(k + 1).drop_last() =~= vs.take(k as int));
            assert(vs.take(k + 1).last() == vs[k as int]);
            if k > 0 {
                assert(vs.take(k + 1)[k - 1] == vs[k - 1]);
            }
        }
        if keep {
            let x = acc[k].clone();
            out.push(x);
            proof {
                assert(crate::method::strings_view(out@) =~= spec_dedup_adjacent(
                    crate::method::strings_view(acc@).take(k + 1),
                ));
            }
        }
        k += 1;
    }
    proof {
        assert(crate::method::strings_view(acc@).take(acc@.len() as int)
            =~= crate::method::strings_view(acc@));
    }
    out
}

/// The least index at or after `from` whose string equals `x`, or -1.
pub open spec fn spec_find_eq(s: Seq<Seq<char>>, x: Seq<char>, from: int) -> int
    decreases s.len() - from,
{
    if from < 0 || from >= s.len() {
        -1
    } else if s[from] == x {
        from
    } else {
        spec_find_eq(s, x, from + 1)
    }
}

/// The first duplicated pair of a string list, scanning in order, if any.
pub open spec fn spec_first_dup(s: Seq<Seq<char>>, i: int) -> Option<(int, int)>
    decreases s.len() - i,
{
    if i < 0 || i >= s.len() {
        Option::None
    } else {
        let j = spec_find_eq(s, s[i], i + 1);
        if j != -1 {
            Option::Some((i, j))
        } else {
            spec_first_dup(s, i + 1)
        }
    }
}

/// Finds the first pair of equal strings, if any.
pub fn find_dup(names: &Vec<String>) -> (r: Option<(usize, usize)>)
    ensures
        match r {
            Option::Some(p) => {
                &&& 0 <= p.0 < p.1 < names@.len()
                &&& spec_first_dup(crate::method::strings_view(names@), 0) == Option::Some(
                    (p.0 as int, p.1 as int),
                )
            },
            Option::None => spec_first_dup(crate::method::strings_view(names@), 0) is None,
        },
{
    let ghost vs = crate::method::strings_view(names@);
    let n = names.len();
    let mut i: usize = 0;
    #[verifier::loop_isolation(false)]
    while i < n
        invariant
            0 <= i <= n,
            spec_first_dup(vs, 0) == spec_first_dup(vs, i as int),
        decreases n - i,
    {
        let mut j: usize = i + 1;
        #[verifier::loop_isolation(false)]
        while j < n
            invariant
                i < j <= n,
                spec_find_eq(vs, vs[i as int], i + 1) == spec_find_eq(vs, vs[i as int], j as int),
            decreases n - j,
        {
            if str_eq(names[i].as_str(), names[j].as_str()) {
                proof {
                    assert(spec_find_eq(vs, vs[i as int], j as int) == j as int);
                }
                return Option::Some((i, j));
            }
            j += 1;
        }
        proof {
            assert(spec_find_eq(vs, vs[i as int], j as int) == -1);
            assert(spec_first_dup(vs, i as int) == spec_first_dup(vs, i + 1));
        }
        i += 1;
    }
    proof {
        assert(spec_first_dup(vs, i as int) is None);
    }
    Option::None
}

/// When the scan finds no duplicate, the list is pairwise distinct.
pub proof fn lemma_no_dup_distinct(s: Seq<Seq<char>>)
    requires
        spec_first_dup(s, 0) is None,
    ensures
        pairwise_distinct(s),
{
    assert forall|i: int, j: int| 0 <= i < j < s.len() implies s[i] != s[j] by {
        if s[i] == s[j] {
            lemma_first_dup_finds(s, 0, i, j);
        }
    }
}

/// If some later pair is equal, the scan starting at or before it succeeds.
pub proof fn lemma_first_dup_finds(s: Seq<Seq<char>>, start: int, i: int, j: int)
    requires
        0 <= start <= i < j < s.len(),
        s[i] == s[j],
    ensures
        spec_first_dup(s, start) is Some,
    decreases i - start,
{
    if start == i {
        lemma_find_eq_finds(s, s[i], i + 1, j);
    } else {
        if spec_find_eq(s, s[start], start + 1) == -1 {
            lemma_first_dup_finds(s, start + 1, i, j);
        }
    }
}

/// If `s[j] == x` with `from <= j`, the search from `from` succeeds.
pub proof fn lemma_find_eq_finds(s: Seq<Seq<char>>, x: Seq<char>, from: int, j: int)
    requires
        0 <= from <= j < s.len(),
        s[j] == x,
    ensures
        spec_find_eq(s, x, from) != -1,
    decreases j - from,
{
    if from < j && s[from] != x {
        lemma_find_eq_finds(s, x, from + 1, j);
    }
}
} // verus!
