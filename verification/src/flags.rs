//! What a system body asks for: the flags that decide its parameter list.
use vstd::prelude::*;

use crate::text::strings_view;

verus! {

/// The `for` loop that a `query!` stands in, if any: none, one whose pattern
/// binds nothing mutably, or one with a `mut` marker for each element.
#[derive(Debug, PartialEq, Eq)]
pub enum ForloopContext {
    NoLoop,
    Std,
    Mutable(Vec<bool>),
}

pub enum LoopView {
    NoLoop,
    Std,
    Mutable(Seq<bool>),
}

impl View for ForloopContext {
    type V = LoopView;

    open spec fn view(&self) -> LoopView {
        match self {
            ForloopContext::NoLoop => LoopView::NoLoop,
            ForloopContext::Std => LoopView::Std,
            ForloopContext::Mutable(m) => LoopView::Mutable(m@),
        }
    }
}

impl ForloopContext {
    /// A copy of the context.
    pub fn duplicate(&self) -> (r: ForloopContext)
        ensures
            r@ == self@,
    {
        match self {
            ForloopContext::NoLoop => ForloopContext::NoLoop,
            ForloopContext::Std => ForloopContext::Std,
            ForloopContext::Mutable(m) => {
                let mut c: Vec<bool> = Vec::new();
                let mut i: usize = 0;
                while i < m.len()
                    invariant
                        i <= m.len(),
                        c@ == m@.take(i as int),
                    decreases m.len() - i,
                {
                    c.push(m[i]);
                    assert(m@.take(i + 1) =~= m@.take(i as int).push(m@[i as int]));
                    i = i + 1;
                }
                assert(m@.take(m.len() as int) =~= m@);
                ForloopContext::Mutable(c)
            },
        }
    }
}

/// The parameters that a system needs, gathered from its body.
#[derive(Debug, PartialEq, Eq)]
pub struct Flags {
    pub mut_commands: bool,
    pub asset_server: bool,
    pub time: bool,
    pub windows: bool,
    pub queries: Vec<(String, ForloopContext)>,
    pub custom_resources: Vec<String>,
    pub custom_resources_mut: Vec<String>,
}

pub struct FlagsView {
    pub mut_commands: bool,
    pub asset_server: bool,
    pub time: bool,
    pub windows: bool,
    pub queries: Seq<(Seq<char>, LoopView)>,
    pub custom_resources: Seq<Seq<char>>,
    pub custom_resources_mut: Seq<Seq<char>>,
}

pub open spec fn queries_view(q: Seq<(String, ForloopContext)>) -> Seq<(Seq<char>, LoopView)> {
    q.map_values(|e: (String, ForloopContext)| (e.0@, e.1@))
}

impl View for Flags {
    type V = FlagsView;

    open spec fn view(&self) -> FlagsView {
        FlagsView {
            mut_commands: self.mut_commands,
            asset_server: self.asset_server,
            time: self.time,
            windows: self.windows,
            queries: queries_view(self.queries@),
            custom_resources: strings_view(self.custom_resources@),
            custom_resources_mut: strings_view(self.custom_resources_mut@),
        }
    }
}

/// No flag set and nothing asked for.
pub open spec fn empty_flags() -> FlagsView {
    FlagsView {
        mut_commands: false,
        asset_server: false,
        time: false,
        windows: false,
        queries: Seq::empty(),
        custom_resources: Seq::empty(),
        custom_resources_mut: Seq::empty(),
    }
}

/// `x` appended to `s` unless `s` holds it already.
pub open spec fn add_unique(s: Seq<Seq<char>>, x: Seq<char>) -> Seq<Seq<char>> {
    if s.contains(x) {
        s
    } else {
        s.push(x)
    }
}

/// The names of `xs`, in order, each added to `s` unless already there.
pub open spec fn add_all(s: Seq<Seq<char>>, xs: Seq<Seq<char>>) -> Seq<Seq<char>>
    decreases xs.len(),
{
    if xs.len() == 0 {
        s
    } else {
        add_unique(add_all(s, xs.drop_last()), xs.last())
    }
}

/// `a` and `b` together: each flag set in either, the queries of `a` then
/// those of `b`, and the resources of `b` added to those of `a`.
pub open spec fn join_flags(a: FlagsView, b: FlagsView) -> FlagsView {
    FlagsView {
        mut_commands: a.mut_commands || b.mut_commands,
        asset_server: a.asset_server || b.asset_server,
        time: a.time || b.time,
        windows: a.windows || b.windows,
        queries: a.queries + b.queries,
        custom_resources: add_all(a.custom_resources, b.custom_resources),
        custom_resources_mut: add_all(a.custom_resources_mut, b.custom_resources_mut),
    }
}

/// No resource is named twice.
pub open spec fn flags_well_formed(f: FlagsView) -> bool {
    f.custom_resources.no_duplicates() && f.custom_resources_mut.no_duplicates()
}

impl Default for Flags {
    fn default() -> (r: Flags)
        ensures
            r@ == empty_flags(),
    {
        let r = Flags {
            mut_commands: false,
            asset_server: false,
            time: false,
            windows: false,
            queries: Vec::new(),
            custom_resources: Vec::new(),
            custom_resources_mut: Vec::new(),
        };
        assert(r@.queries =~= Seq::<(Seq<char>, LoopView)>::empty());
        assert(r@.custom_resources =~= Seq::<Seq<char>>::empty());
        assert(r@.custom_resources_mut =~= Seq::<Seq<char>>::empty());
        r
    }
}

/// Does `v` hold a string with the same text as `s`?
fn contains_string(v: &Vec<String>, s: &String) -> (r: bool)
    ensures
        r == strings_view(v@).contains(s@),
{
    let mut i: usize = 0;
    while i < v.len()
        invariant
            i <= v.len(),
            forall|j: int| 0 <= j < i ==> v@[j]@ != s@,
        decreases v.len() - i,
    {
        if v[i] == *s {
            assert(strings_view(v@)[i as int] == s@);
            return true;
        }
        i = i + 1;
    }
    assert forall|j: int| 0 <= j < strings_view(v@).len() implies strings_view(v@)[j] != s@ by {
        assert(strings_view(v@)[j] == v@[j]@);
    }
    false
}

/// Appends `s` to `v` unless `v` holds it already.
fn push_unique(v: &mut Vec<String>, s: String)
    ensures
        strings_view(final(v)@) == add_unique(strings_view(old(v)@), s@),
{
    if !contains_string(v, &s) {
        let ghost before = v@;
        v.push(s);
        assert(strings_view(v@) =~= strings_view(before).push(s@));
    }
}

impl Flags {
    /// Adds what `with` asks for: its flags, its queries after these, and its
    /// resources that are not here yet.
    pub fn join(&mut self, with: Flags)
        ensures
            final(self)@ == join_flags(old(self)@, with@),
    {
        let ghost target = join_flags(old(self)@, with@);
        let mut with = with;
        self.mut_commands = self.mut_commands || with.mut_commands;
        self.asset_server = self.asset_server || with.asset_server;
        self.time = self.time || with.time;
        self.windows = self.windows || with.windows;
        let ghost q0 = self.queries@;
        let ghost wq = with.queries@;
        self.queries.append(&mut with.queries);
        assert(queries_view(self.queries@) =~= queries_view(q0) + queries_view(wq));
        let ghost r0 = strings_view(self.custom_resources@);
        let ghost wr = strings_view(with.custom_resources@);
        let ghost wm0 = strings_view(with.custom_resources_mut@);
        let mut i: usize = 0;
        assert(wr.take(0) =~= Seq::<Seq<char>>::empty());
        while i < with.custom_resources.len()
            invariant
                i <= with.custom_resources.len(),
                wr == strings_view(with.custom_resources@),
                wm0 == strings_view(with.custom_resources_mut@),
                strings_view(self.custom_resources@) == add_all(r0, wr.take(i as int)),
                self@.custom_resources_mut == old(self)@.custom_resources_mut,
                self@.queries == target.queries,
                self.mut_commands == target.mut_commands,
                self.asset_server == target.asset_server,
                self.time == target.time,
                self.windows == target.windows,
                target.custom_resources == add_all(r0, wr),
                target.custom_resources_mut == add_all(old(self)@.custom_resources_mut, wm0),
            decreases with.custom_resources.len() - i,
        {
            let rs = with.custom_resources[i].clone();
            self.add_res(rs);
            assert(wr.take(i + 1).drop_last() =~= wr.take(i as int));
            i = i + 1;
        }
        assert(wr.take(i as int) =~= wr);
        let ghost m0 = strings_view(self.custom_resources_mut@);
        let ghost wm = strings_view(with.custom_resources_mut@);
        let mut k: usize = 0;
        assert(wm.take(0) =~= Seq::<Seq<char>>::empty());
        while k < with.custom_resources_mut.len()
            invariant
                k <= with.custom_resources_mut.len(),
                wm == strings_view(with.custom_resources_mut@),
                strings_view(self.custom_resources_mut@) == add_all(m0, wm.take(k as int)),
                self@.custom_resources == target.custom_resources,
                self@.queries == target.queries,
                self.mut_commands == target.mut_commands,
                self.asset_server == target.asset_server,
                self.time == target.time,
                self.windows == target.windows,
                target.custom_resources_mut == add_all(m0, wm),
            decreases with.custom_resources_mut.len() - k,
        {
            let rs = with.custom_resources_mut[k].clone();
            self.add_res_mut(rs);
            assert(wm.take(k + 1).drop_last() =~= wm.take(k as int));
            k = k + 1;
        }
        assert(wm.take(k as int) =~= wm);
    }

    /// Asks for the resource `rs` by shared reference, unless it is asked for
    /// already.
    pub fn add_res(&mut self, rs: String)
        ensures
            final(self)@ == (FlagsView {
                custom_resources: add_unique(old(self)@.custom_resources, rs@),
                ..old(self)@
            }),
    {
        push_unique(&mut self.custom_resources, rs);
    }

    /// Asks for the resource `rs` by mutable reference, unless it is asked
    /// for already.
    pub fn add_res_mut(&mut self, rs: String)
        ensures
            final(self)@ == (FlagsView {
                custom_resources_mut: add_unique(old(self)@.custom_resources_mut, rs@),
                ..old(self)@
            }),
    {
        push_unique(&mut self.custom_resources_mut, rs);
    }
}

} // verus!
