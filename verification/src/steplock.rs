//! The step-lock: the turn barrier between clients and the game rules.
//!
//! A turn collects one command per expected client. Clients join and
//! leave between commands; a client that leaves before submitting no
//! longer blocks the turn; a deadline converts every outstanding client
//! into an empty response. The turn may be stepped exactly when nothing
//! is outstanding.

use vstd::prelude::*;

verus! {

/// Whether `id` occurs in a set of client ids.
pub open spec fn spec_has_id(s: Seq<usize>, id: usize) -> bool {
    exists|i: int| 0 <= i < s.len() && s[i] == id
}

/// No client id occurs twice.
pub open spec fn spec_ids_unique(s: Seq<usize>) -> bool {
    forall|a: int, b: int| 0 <= a < b < s.len() ==> s[a] != s[b]
}

/// The index of the command attached by `id`.
pub open spec fn spec_find_cmd(c: Seq<(usize, Seq<u8>)>, id: usize) -> Option<int> {
    if exists|i: int| 0 <= i < c.len() && c[i].0 == id {
        Some(choose|i: int| 0 <= i < c.len() && c[i].0 == id)
    } else {
        None
    }
}

/// Whether `id` attached a command this turn.
pub open spec fn spec_has_cmd(c: Seq<(usize, Seq<u8>)>, id: usize) -> bool {
    spec_find_cmd(c, id) is Some
}

/// The command `id` attached this turn.
pub open spec fn spec_cmd_of(c: Seq<(usize, Seq<u8>)>, id: usize) -> Seq<u8>
    recommends
        spec_has_cmd(c, id),
{
    c[spec_find_cmd(c, id).unwrap()].1
}

/// The view of the collected commands.
pub open spec fn spec_cmds(c: Seq<(usize, Vec<u8>)>) -> Seq<(usize, Seq<u8>)> {
    c.map(|i: int, p: (usize, Vec<u8>)| (p.0, p.1@))
}

/// In a collection with one command per id, an entry holding `id` is
/// where the lookup lands.
proof fn cmd_find_unique(c: Seq<(usize, Seq<u8>)>, id: usize, i: int)
    requires
        0 <= i < c.len(),
        c[i].0 == id,
        forall|a: int, b: int| 0 <= a < b < c.len() ==> c[a].0 != c[b].0,
    ensures
        spec_find_cmd(c, id) == Some(i),
{
    let k = choose|k: int| 0 <= k < c.len() && c[k].0 == id;
    if k != i {
        if k < i {
            assert(c[k].0 != c[i].0);
        } else {
            assert(c[i].0 != c[k].0);
        }
    }
}

/// The turn barrier.
pub struct StepLock {
    expected: Vec<usize>,
    pending: Vec<usize>,
    collected: Vec<(usize, Vec<u8>)>,
    generation: u64,
}

impl StepLock {
    /// The clients a response is expected from, this turn or the next.
    pub closed spec fn expected(&self) -> Seq<usize> {
        self.expected@
    }

    /// The clients still outstanding this turn.
    pub closed spec fn pending(&self) -> Seq<usize> {
        self.pending@
    }

    /// The commands attached this turn.
    pub closed spec fn collected(&self) -> Seq<(usize, Seq<u8>)> {
        spec_cmds(self.collected@)
    }

    /// How many turns have been stepped since the barrier was built.
    pub closed spec fn generation(&self) -> u64 {
        self.generation
    }

    /// Executable form of `generation`.
    pub fn turn_generation(&self) -> (r: u64)
        ensures
            r == self.generation(),
    {
        self.generation
    }

    /// The barrier's invariant: ids are unique, every outstanding client
    /// is expected, and exactly the expected clients that are no longer
    /// outstanding have a command on record.
    pub open spec fn wf(&self) -> bool {
        &&& spec_ids_unique(self.expected())
        &&& spec_ids_unique(self.pending())
        &&& (forall|a: int, b: int|
            0 <= a < b < self.collected().len() ==> self.collected()[a].0 != self.collected()[b].0)
        &&& (forall|id: usize| #[trigger]
            spec_has_id(self.pending(), id) ==> spec_has_id(self.expected(), id))
        &&& (forall|id: usize| #[trigger]
            spec_has_cmd(self.collected(), id) == (spec_has_id(self.expected(), id)
                && !spec_has_id(self.pending(), id)))
    }

    /// A barrier awaiting one response from each of `clients`.
    pub fn new(clients: Vec<usize>) -> (r: Self)
        requires
            spec_ids_unique(clients@),
        ensures
            r.wf(),
            r.expected() == clients@,
            r.pending() == clients@,
            r.collected() == Seq::<(usize, Seq<u8>)>::empty(),
            r.generation() == 0,
    {
        let pending = copy_ids(&clients);
        let r = StepLock { expected: clients, pending, collected: Vec::new(), generation: 0 };
        assert(r.collected() =~= Seq::<(usize, Seq<u8>)>::empty());
        proof {
            assert forall|id: usize| #[trigger]
                spec_has_cmd(r.collected(), id) == (spec_has_id(r.expected(), id) && !spec_has_id(
                r.pending(),
                id,
            )) by {
                if spec_has_id(r.expected(), id) {
                    let i = choose|i: int|
                        0 <= i < r.expected().len() && r.expected()[i] == id;
                    assert(r.pending()[i] == id);
                }
            }
        }
        r
    }

    /// The index of `id` in a vector of ids.
    fn find_id(ids: &Vec<usize>, id: usize) -> (r: Option<usize>)
        ensures
            r matches Some(i) ==> i < ids@.len() && ids@[i as int] == id,
            r is None ==> !spec_has_id(ids@, id),
    {
        let mut i: usize = 0;
        while i < ids.len()
            invariant
                i <= ids@.len(),
                forall|j: int| 0 <= j < i ==> ids@[j] != id,
            decreases ids@.len() - i,
        {
            if ids[i] == id {
                return Some(i);
            }
            i += 1;
        }
        proof {
            if exists|k: int| 0 <= k < ids@.len() && ids@[k] == id {
                let k = choose|k: int| 0 <= k < ids@.len() && ids@[k] == id;
                assert(ids@[k] != id);
            }
        }
        None
    }

    /// Whether a response from `id` is expected.
    pub fn is_expected(&self, id: usize) -> (r: bool)
        ensures
            r == spec_has_id(self.expected(), id),
    {
        match Self::find_id(&self.expected, id) {
            Some(i) => {
                assert(spec_has_id(self.expected(), id));
                true
            },
            None => false,
        }
    }

    /// Whether every expected client has resolved; the turn may be
    /// stepped exactly now.
    pub fn is_ready(&self) -> (r: bool)
        ensures
            r == (self.pending().len() == 0),
    {
        self.pending.len() == 0
    }

    /// Record `data` as the command of `id` for this turn. Ignored for a
    /// client that is not outstanding — unknown, already submitted, or
    /// disconnected.
    pub fn attach_command(&mut self, id: usize, data: Vec<u8>)
        requires
            old(self).wf(),
        ensures
            final(self).wf(),
            final(self).expected() == old(self).expected(),
            final(self).generation() == old(self).generation(),
            !spec_has_id(old(self).pending(), id) ==> final(self).pending() == old(self).pending()
                && final(self).collected() == old(self).collected(),
            spec_has_id(old(self).pending(), id) ==> {
                &&& (forall|x: usize| #[trigger]
                    spec_has_id(final(self).pending(), x) == (spec_has_id(old(self).pending(), x)
                        && x != id))
                &&& final(self).collected() == old(self).collected().push((id, data@))
                &&& spec_has_cmd(final(self).collected(), id)
                &&& spec_cmd_of(final(self).collected(), id) == data@
            },
    {
        let i = match Self::find_id(&self.pending, id) {
            None => {
                return ;
            },
            Some(i) => i,
        };
        proof {
            assert(spec_has_id(old(self).pending(), id)) by {
                assert(old(self).pending()[i as int] == id);
            }
            assert(!spec_has_cmd(old(self).collected(), id));
        }
        let ghost oldpending = self.pending();
        self.pending.remove(i);
        proof {
            assert(self.pending() =~= oldpending.remove(i as int));
            assert forall|x: usize| #[trigger] spec_has_id(self.pending(), x) == (spec_has_id(
                oldpending,
                x,
            ) && x != id) by {
                ids_remove_membership(oldpending, i as int, x);
            }
        }
        let ghost oldcollected = self.collected();
        self.collected.push((id, data));
        proof {
            assert(self.collected() =~= oldcollected.push((id, data@)));
            let n = oldcollected.len() as int;
            assert(self.collected()[n].0 == id);
            assert(!spec_has_cmd(oldcollected, id));
            assert forall|a: int, b: int|
                0 <= a < b < self.collected().len() implies self.collected()[a].0
                != self.collected()[b].0 by {
                if b == n {
                    if oldcollected[a].0 == id {
                        assert(spec_has_cmd(oldcollected, id)) by {
                            assert(0 <= a < oldcollected.len() && oldcollected[a].0 == id);
                        }
                    }
                }
            }
            cmd_find_unique(self.collected(), id, n);
            assert forall|x: usize| #[trigger] spec_has_cmd(self.collected(), x) == (spec_has_id(
                self.expected(),
                x,
            ) && !spec_has_id(self.pending(), x)) by {
                cmds_push_membership(oldcollected, id, data@, x);
                assert(spec_has_cmd(old(self).collected(), x) == (spec_has_id(
                    old(self).expected(),
                    x,
                ) && !spec_has_id(old(self).pending(), x)));
            }
        }
    }

    /// Admit a new client: expected and outstanding from now on. A
    /// client already expected is left as it is.
    pub fn connect(&mut self, id: usize)
        requires
            old(self).wf(),
        ensures
            final(self).wf(),
            final(self).collected() == old(self).collected(),
            final(self).generation() == old(self).generation(),
            spec_has_id(old(self).expected(), id) ==> final(self).expected() == old(
                self,
            ).expected() && final(self).pending() == old(self).pending(),
            !spec_has_id(old(self).expected(), id) ==> final(self).expected() == old(
                self,
            ).expected().push(id) && final(self).pending() == old(self).pending().push(id),
    {
        if Self::find_id(&self.expected, id).is_some() {
            proof {
                let i = choose|i: int|
                    0 <= i < self.expected().len() && self.expected()[i] == id;
                assert(spec_has_id(self.expected(), id));
            }
            return ;
        }
        let ghost oldexpected = self.expected();
        let ghost oldpending = self.pending();
        self.expected.push(id);
        self.pending.push(id);
        proof {
            assert(self.expected() =~= oldexpected.push(id));
            assert(self.pending() =~= oldpending.push(id));
            ids_push_keeps_unique(oldexpected, id);
            ids_push_keeps_unique(oldpending, id);
            assert(!spec_has_id(oldpending, id));
            assert forall|x: usize| #[trigger] spec_has_id(self.pending(), x) implies spec_has_id(
                self.expected(),
                x,
            ) by {
                ids_push_membership(oldpending, id, x);
                ids_push_membership(oldexpected, id, x);
            }
            assert(!spec_has_cmd(old(self).collected(), id));
            assert forall|x: usize| #[trigger] spec_has_cmd(self.collected(), x) == (spec_has_id(
                self.expected(),
                x,
            ) && !spec_has_id(self.pending(), x)) by {
                ids_push_membership(oldpending, id, x);
                ids_push_membership(oldexpected, id, x);
                assert(spec_has_cmd(old(self).collected(), x) == (spec_has_id(
                    old(self).expected(),
                    x,
                ) && !spec_has_id(old(self).pending(), x)));
            }
        }
    }

    /// Retire a client: no longer expected, no longer outstanding, and
    /// any command it attached this turn is discarded with it.
    pub fn disconnect(&mut self, id: usize)
        requires
            old(self).wf(),
        ensures
            final(self).wf(),
            final(self).generation() == old(self).generation(),
            forall|x: usize| #[trigger]
                spec_has_id(final(self).expected(), x) == (spec_has_id(old(self).expected(), x)
                    && x != id),
            forall|x: usize| #[trigger]
                spec_has_id(final(self).pending(), x) == (spec_has_id(old(self).pending(), x)
                    && x != id),
            forall|x: usize| #[trigger]
                spec_has_cmd(final(self).collected(), x) == (spec_has_cmd(
                    old(self).collected(),
                    x,
                ) && x != id),
            forall|x: usize|
                x != id && spec_has_cmd(old(self).collected(), x) ==> #[trigger] spec_cmd_of(
                    final(self).collected(),
                    x,
                ) == spec_cmd_of(old(self).collected(), x),
    {
        let ghost oldexpected = self.expected();
        let ghost oldpending = self.pending();
        let ghost oldcollected = self.collected();
        match Self::find_id(&self.expected, id) {
            None => {
                proof {
                    assert forall|x: usize| #[trigger] spec_has_id(self.expected(), x)
                        == (spec_has_id(oldexpected, x) && x != id) by {}
                    if spec_has_id(oldpending, id) {
                        assert(spec_has_id(oldexpected, id));
                    }
                    if spec_has_cmd(oldcollected, id) {
                        assert(spec_has_id(oldexpected, id));
                    }
                }
            },
            Some(i) => {
                self.expected.remove(i);
                proof {
                    assert(self.expected() =~= oldexpected.remove(i as int));
                    assert forall|x: usize| #[trigger] spec_has_id(self.expected(), x)
                        == (spec_has_id(oldexpected, x) && x != id) by {
                        ids_remove_membership(oldexpected, i as int, x);
                    }
                }
            },
        }
        match Self::find_id(&self.pending, id) {
            None => {},
            Some(i) => {
                let ghost p0 = self.pending();
                self.pending.remove(i);
                proof {
                    assert(self.pending() =~= p0.remove(i as int));
                    assert forall|x: usize| #[trigger] spec_has_id(self.pending(), x)
                        == (spec_has_id(p0, x) && x != id) by {
                        ids_remove_membership(p0, i as int, x);
                    }
                }
            },
        }
        match find_cmd(&self.collected, id) {
            None => {},
            Some(i) => {
                let ghost c0 = self.collected();
                self.collected.remove(i);
                proof {
                    assert(self.collected() =~= c0.remove(i as int));
                    assert forall|x: usize| #[trigger] spec_has_cmd(self.collected(), x)
                        == (spec_has_cmd(c0, x) && x != id) by {
                        cmds_remove_membership(c0, i as int, x);
                    }
                    assert forall|x: usize|
                        x != id && spec_has_cmd(c0, x) implies #[trigger] spec_cmd_of(
                        self.collected(),
                        x,
                    ) == spec_cmd_of(c0, x) by {
                        cmds_remove_membership(c0, i as int, x);
                    }
                }
            },
        }
        proof {
            assert forall|x: usize| #[trigger] spec_has_cmd(self.collected(), x) == (spec_has_id(
                self.expected(),
                x,
            ) && !spec_has_id(self.pending(), x)) by {}
        }
    }

    /// The deadline fired: every outstanding client is recorded with an
    /// empty command, and the turn becomes ready.
    pub fn force_ready(&mut self)
        requires
            old(self).wf(),
        ensures
            final(self).wf(),
            final(self).expected() == old(self).expected(),
            final(self).generation() == old(self).generation(),
            final(self).pending().len() == 0,
            forall|x: usize| #[trigger]
                spec_has_cmd(final(self).collected(), x) == (spec_has_cmd(
                    old(self).collected(),
                    x,
                ) || spec_has_id(old(self).pending(), x)),
            forall|x: usize|
                spec_has_cmd(old(self).collected(), x) ==> #[trigger] spec_cmd_of(
                    final(self).collected(),
                    x,
                ) == spec_cmd_of(old(self).collected(), x),
            forall|x: usize|
                spec_has_id(old(self).pending(), x) ==> #[trigger] spec_cmd_of(
                    final(self).collected(),
                    x,
                ) == Seq::<u8>::empty(),
    {
        let ghost oldpending = self.pending();
        let ghost oldcollected = self.collected();
        proof {
            assert(oldpending.take(oldpending.len() as int) =~= oldpending);
        }
        while self.pending.len() > 0
            invariant
                old(self).wf(),
                oldpending == old(self).pending(),
                oldcollected == old(self).collected(),
                spec_ids_unique(self.pending()),
                self.expected() == old(self).expected(),
                self.generation() == old(self).generation(),
                self.pending().len() <= oldpending.len(),
                self.pending() == oldpending.take(self.pending().len() as int),
                forall|a: int, b: int|
                    0 <= a < b < self.collected().len() ==> self.collected()[a].0
                        != self.collected()[b].0,
                forall|x: usize| #[trigger]
                    spec_has_cmd(self.collected(), x) == (spec_has_cmd(oldcollected, x)
                        || (spec_has_id(oldpending, x) && !spec_has_id(self.pending(), x))),
                forall|x: usize|
                    spec_has_cmd(oldcollected, x) ==> #[trigger] spec_cmd_of(self.collected(), x)
                        == spec_cmd_of(oldcollected, x),
                forall|x: usize|
                    spec_has_id(oldpending, x) && !spec_has_id(self.pending(), x)
                        ==> #[trigger] spec_cmd_of(self.collected(), x) == Seq::<u8>::empty(),
            decreases self.pending().len(),
        {
            let ghost p0 = self.pending();
            let ghost c0 = self.collected();
            let id = match self.pending.pop() {
                Some(id) => id,
                None => {
                    assert(false);
                    0
                },
            };
            proof {
                assert(self.pending() =~= p0.drop_last());
                assert(spec_has_id(p0, id)) by {
                    assert(p0[p0.len() - 1] == id);
                }
                assert(spec_has_id(oldpending, id)) by {
                    assert(oldpending.take(p0.len() as int)[p0.len() - 1] == id);
                    assert(oldpending[p0.len() - 1] == id);
                }
                assert(!spec_has_cmd(c0, id)) by {
                    assert(spec_has_cmd(old(self).collected(), id) == (spec_has_id(
                        old(self).expected(),
                        id,
                    ) && !spec_has_id(old(self).pending(), id)));
                }
            }
            self.attach_with_empty(id);
            proof {
                assert(self.pending() == p0.drop_last());
                assert(self.pending() =~= oldpending.take(self.pending().len() as int));
                assert forall|x: usize| #[trigger] spec_has_id(p0, x) == (spec_has_id(
                    self.pending(),
                    x,
                ) || x == id) by {
                    ids_pop_membership(p0, x);
                    if spec_has_id(self.pending(), x) {
                        let k = choose|k: int|
                            0 <= k < self.pending().len() && self.pending()[k] == x;
                        assert(p0[k] == x);
                    }
                }
                assert(!spec_has_id(self.pending(), id)) by {
                    if spec_has_id(p0.drop_last(), id) {
                        let k = choose|k: int|
                            0 <= k < p0.drop_last().len() && p0.drop_last()[k] == id;
                        assert(p0[k] == id);
                        assert(p0[k] != p0[p0.len() - 1]);
                    }
                }
                assert forall|x: usize| #[trigger] spec_has_cmd(self.collected(), x)
                    == (spec_has_cmd(oldcollected, x) || (spec_has_id(oldpending, x)
                    && !spec_has_id(self.pending(), x))) by {
                    assert(spec_has_cmd(self.collected(), x) == (spec_has_cmd(c0, x) || x == id));
                    assert(spec_has_cmd(c0, x) == (spec_has_cmd(oldcollected, x) || (spec_has_id(
                        oldpending,
                        x,
                    ) && !spec_has_id(p0, x))));
                    assert(spec_has_id(p0, x) == (spec_has_id(self.pending(), x) || x == id));
                }
                assert forall|x: usize| spec_has_cmd(oldcollected, x) implies #[trigger]
                    spec_cmd_of(self.collected(), x) == spec_cmd_of(oldcollected, x) by {
                    assert(spec_has_cmd(c0, x));
                    assert(x != id);
                    assert(spec_cmd_of(self.collected(), x) == spec_cmd_of(c0, x));
                }
                assert forall|x: usize|
                    spec_has_id(oldpending, x) && !spec_has_id(self.pending(), x)
                        implies #[trigger] spec_cmd_of(self.collected(), x) == Seq::<u8>::empty()
                by {
                    if x != id {
                        assert(!spec_has_id(p0, x));
                        assert(spec_has_cmd(c0, x));
                        assert(spec_cmd_of(c0, x) == Seq::<u8>::empty());
                        assert(spec_cmd_of(self.collected(), x) == spec_cmd_of(c0, x));
                    }
                }
            }
        }
        proof {
            assert(self.pending() =~= Seq::<usize>::empty());
            assert forall|x: usize| #[trigger] spec_has_cmd(self.collected(), x) == (spec_has_id(
                self.expected(),
                x,
            ) && !spec_has_id(self.pending(), x)) by {
                assert(spec_has_cmd(old(self).collected(), x) == (spec_has_id(
                    old(self).expected(),
                    x,
                ) && !spec_has_id(old(self).pending(), x)));
                if spec_has_id(oldpending, x) {
                    assert(spec_has_id(old(self).pending(), x));
                    assert(spec_has_id(old(self).expected(), x));
                }
            }
            assert forall|x: usize| #[trigger] spec_has_id(self.pending(), x) implies spec_has_id(
                self.expected(),
                x,
            ) by {}
        }
    }

    /// Record `id` in the collection with an empty command. The caller
    /// rebalances the outstanding set around this.
    fn attach_with_empty(&mut self, id: usize)
        requires
            forall|a: int, b: int|
                0 <= a < b < old(self).collected().len() ==> old(self).collected()[a].0 != old(
                    self,
                ).collected()[b].0,
            !spec_has_cmd(old(self).collected(), id),
        ensures
            final(self).expected() == old(self).expected(),
            final(self).pending() == old(self).pending(),
            final(self).generation() == old(self).generation(),
            final(self).collected() == old(self).collected().push((id, Seq::<u8>::empty())),
            forall|a: int, b: int|
                0 <= a < b < final(self).collected().len() ==> final(self).collected()[a].0
                    != final(self).collected()[b].0,
            spec_cmd_of(final(self).collected(), id) == Seq::<u8>::empty(),
            forall|x: usize|
                x != id && spec_has_cmd(old(self).collected(), x) ==> #[trigger] spec_cmd_of(
                    final(self).collected(),
                    x,
                ) == spec_cmd_of(old(self).collected(), x),
            forall|x: usize| #[trigger]
                spec_has_cmd(final(self).collected(), x) == (spec_has_cmd(
                    old(self).collected(),
                    x,
                ) || x == id),
    {
        let ghost oldcollected = self.collected();
        let empty: Vec<u8> = Vec::new();
        self.collected.push((id, empty));
        proof {
            assert(self.collected() =~= oldcollected.push((id, Seq::<u8>::empty())));
            let n = oldcollected.len() as int;
            assert forall|a: int, b: int|
                0 <= a < b < self.collected().len() implies self.collected()[a].0
                != self.collected()[b].0 by {
                if b == n {
                    if oldcollected[a].0 == id {
                        assert(spec_has_cmd(oldcollected, id)) by {
                            assert(0 <= a < oldcollected.len() && oldcollected[a].0 == id);
                        }
                    }
                }
            }
            cmd_find_unique(self.collected(), id, n);
            assert forall|x: usize| #[trigger] spec_has_cmd(self.collected(), x) == (spec_has_cmd(
                oldcollected,
                x,
            ) || x == id) by {
                cmds_push_membership(oldcollected, id, Seq::<u8>::empty(), x);
            }
            assert forall|x: usize|
                x != id && spec_has_cmd(oldcollected, x) implies #[trigger] spec_cmd_of(
                self.collected(),
                x,
            ) == spec_cmd_of(oldcollected, x) by {
                cmds_push_membership(oldcollected, id, Seq::<u8>::empty(), x);
            }
        }
    }

    /// Take this turn's responses and rearm the barrier: every expected
    /// client becomes outstanding again.
    pub fn do_step(&mut self) -> (cmds: Vec<(usize, Vec<u8>)>)
        requires
            old(self).wf(),
            old(self).pending().len() == 0,
            old(self).generation() < u64::MAX,
        ensures
            final(self).wf(),
            final(self).generation() == old(self).generation() + 1,
            spec_cmds(cmds@) == old(self).collected(),
            final(self).expected() == old(self).expected(),
            final(self).pending() == old(self).expected(),
            final(self).collected() == Seq::<(usize, Seq<u8>)>::empty(),
    {
        let mut cmds: Vec<(usize, Vec<u8>)> = Vec::new();
        core::mem::swap(&mut cmds, &mut self.collected);
        self.pending = copy_ids(&self.expected);
        self.generation = self.generation + 1;
        proof {
            assert(self.collected() =~= Seq::<(usize, Seq<u8>)>::empty());
            assert forall|x: usize| #[trigger] spec_has_cmd(self.collected(), x) == (spec_has_id(
                self.expected(),
                x,
            ) && !spec_has_id(self.pending(), x)) by {
                if spec_has_id(self.expected(), x) {
                    let i = choose|i: int|
                        0 <= i < self.expected().len() && self.expected()[i] == x;
                    assert(self.pending()[i] == x);
                }
            }
        }
        cmds
    }
}

/// A copy of a vector of client ids.
fn copy_ids(ids: &Vec<usize>) -> (r: Vec<usize>)
    ensures
        r@ == ids@,
{
    let mut r: Vec<usize> = Vec::new();
    let mut i: usize = 0;
    while i < ids.len()
        invariant
            i <= ids@.len(),
            r@ == ids@.take(i as int),
        decreases ids@.len() - i,
    {
        r.push(ids[i]);
        assert(ids@.take(i + 1) == ids@.take(i as int).push(ids@[i as int]));
        i += 1;
    }
    assert(ids@.take(ids@.len() as int) == ids@);
    r
}

/// The index of the command attached by `id`, executably.
fn find_cmd(c: &Vec<(usize, Vec<u8>)>, id: usize) -> (r: Option<usize>)
    ensures
        r matches Some(i) ==> i < c@.len() && spec_cmds(c@)[i as int].0 == id,
        r is None ==> !spec_has_cmd(spec_cmds(c@), id),
{
    let mut i: usize = 0;
    while i < c.len()
        invariant
            i <= c@.len(),
            forall|j: int| 0 <= j < i ==> spec_cmds(c@)[j].0 != id,
        decreases c@.len() - i,
    {
        if c[i].0 == id {
            assert(spec_cmds(c@)[i as int].0 == id);
            return Some(i);
        }
        i += 1;
    }
    proof {
        if exists|k: int| 0 <= k < spec_cmds(c@).len() && spec_cmds(c@)[k].0 == id {
            let k = choose|k: int| 0 <= k < spec_cmds(c@).len() && spec_cmds(c@)[k].0 == id;
            assert(spec_cmds(c@)[k].0 != id);
        }
    }
    None
}

/// Membership in a set of ids after removing the entry at `i`.
proof fn ids_remove_membership(s: Seq<usize>, i: int, x: usize)
    requires
        0 <= i < s.len(),
        spec_ids_unique(s),
    ensures
        spec_has_id(s.remove(i), x) == (spec_has_id(s, x) && x != s[i]),
        spec_ids_unique(s.remove(i)),
{
    let t = s.remove(i);
    assert forall|a: int, b: int| 0 <= a < b < t.len() implies t[a] != t[b] by {
        let oa = if a < i {
            a
        } else {
            a + 1
        };
        let ob = if b < i {
            b
        } else {
            b + 1
        };
        assert(t[a] == s[oa]);
        assert(t[b] == s[ob]);
    }
    if spec_has_id(t, x) {
        let k = choose|k: int| 0 <= k < t.len() && t[k] == x;
        let ok = if k < i {
            k
        } else {
            k + 1
        };
        assert(s[ok] == x);
        if x == s[i] {
            if ok < i {
                assert(s[ok] != s[i]);
            } else {
                assert(s[i] != s[ok]);
            }
        }
    }
    if spec_has_id(s, x) && x != s[i] {
        let k = choose|k: int| 0 <= k < s.len() && s[k] == x;
        let nk = if k < i {
            k
        } else {
            k - 1
        };
        assert(t[nk] == s[k]);
    }
}

/// Membership in a set of ids after pushing one id.
proof fn ids_push_membership(s: Seq<usize>, id: usize, x: usize)
    ensures
        spec_has_id(s.push(id), x) == (spec_has_id(s, x) || x == id),
{
    let t = s.push(id);
    if spec_has_id(t, x) {
        let k = choose|k: int| 0 <= k < t.len() && t[k] == x;
        if k < s.len() {
            assert(s[k] == x);
        }
    }
    if spec_has_id(s, x) {
        let k = choose|k: int| 0 <= k < s.len() && s[k] == x;
        assert(t[k] == x);
    }
    assert(t[s.len() as int] == id);
}

/// Pushing a fresh id keeps ids unique.
proof fn ids_push_keeps_unique(s: Seq<usize>, id: usize)
    requires
        spec_ids_unique(s),
        !spec_has_id(s, id),
    ensures
        spec_ids_unique(s.push(id)),
{
    let t = s.push(id);
    assert forall|a: int, b: int| 0 <= a < b < t.len() implies t[a] != t[b] by {
        if b == t.len() - 1 {
            if s[a] == id {
                assert(spec_has_id(s, id)) by {
                    assert(0 <= a < s.len() && s[a] == id);
                }
            }
        }
    }
}

/// Membership after dropping the last id.
proof fn ids_pop_membership(s: Seq<usize>, x: usize)
    requires
        s.len() > 0,
    ensures
        spec_has_id(s, x) == (spec_has_id(s.drop_last(), x) || x == s[s.len() - 1]),
{
    if spec_has_id(s, x) {
        let k = choose|k: int| 0 <= k < s.len() && s[k] == x;
        if k < s.len() - 1 {
            assert(s.drop_last()[k] == x);
        }
    }
    if spec_has_id(s.drop_last(), x) {
        let k = choose|k: int| 0 <= k < s.drop_last().len() && s.drop_last()[k] == x;
        assert(s[k] == x);
    }
}

/// Membership and lookups in the collection after pushing one fresh
/// command.
proof fn cmds_push_membership(c: Seq<(usize, Seq<u8>)>, id: usize, data: Seq<u8>, x: usize)
    requires
        !spec_has_cmd(c, id),
        forall|a: int, b: int| 0 <= a < b < c.len() ==> c[a].0 != c[b].0,
    ensures
        spec_has_cmd(c.push((id, data)), x) == (spec_has_cmd(c, x) || x == id),
        x != id && spec_has_cmd(c, x) ==> spec_cmd_of(c.push((id, data)), x) == spec_cmd_of(c, x),
{
    let t = c.push((id, data));
    let n = c.len() as int;
    assert(t[n].0 == id);
    assert forall|a: int, b: int| 0 <= a < b < t.len() implies t[a].0 != t[b].0 by {
        if b == n {
            if c[a].0 == id {
                assert(spec_has_cmd(c, id)) by {
                    assert(0 <= a < c.len() && c[a].0 == id);
                }
            }
        }
    }
    if spec_has_cmd(t, x) {
        let k = choose|k: int| 0 <= k < t.len() && t[k].0 == x;
        if k < n {
            assert(c[k].0 == x);
        }
    }
    if spec_has_cmd(c, x) {
        let k = choose|k: int| 0 <= k < c.len() && c[k].0 == x;
        assert(t[k].0 == x);
        if x != id {
            cmd_find_unique(t, x, k);
            cmd_find_unique(c, x, k);
        }
    }
}

/// Membership and lookups in the collection after removing the entry at
/// `i`.
proof fn cmds_remove_membership(c: Seq<(usize, Seq<u8>)>, i: int, x: usize)
    requires
        0 <= i < c.len(),
        forall|a: int, b: int| 0 <= a < b < c.len() ==> c[a].0 != c[b].0,
    ensures
        spec_has_cmd(c.remove(i), x) == (spec_has_cmd(c, x) && x != c[i].0),
        x != c[i].0 && spec_has_cmd(c, x) ==> spec_cmd_of(c.remove(i), x) == spec_cmd_of(c, x),
{
    let t = c.remove(i);
    assert forall|a: int, b: int| 0 <= a < b < t.len() implies t[a].0 != t[b].0 by {
        let oa = if a < i {
            a
        } else {
            a + 1
        };
        let ob = if b < i {
            b
        } else {
            b + 1
        };
        assert(t[a] == c[oa]);
        assert(t[b] == c[ob]);
    }
    if spec_has_cmd(t, x) {
        let k = choose|k: int| 0 <= k < t.len() && t[k].0 == x;
        let ok = if k < i {
            k
        } else {
            k + 1
        };
        assert(c[ok].0 == x);
        if x == c[i].0 {
            if ok < i {
                assert(c[ok].0 != c[i].0);
            } else {
                assert(c[i].0 != c[ok].0);
            }
        }
    }
    if spec_has_cmd(c, x) && x != c[i].0 {
        let k = choose|k: int| 0 <= k < c.len() && c[k].0 == x;
        let nk = if k < i {
            k
        } else {
            k - 1
        };
        assert(t[nk] == c[k]);
        cmd_find_unique(t, x, nk);
        cmd_find_unique(c, x, k);
    }
}

/// The turn may be stepped exactly when every expected client has
/// resolved: each either attached a command, or was retired by a
/// disconnect, or was filled in by the deadline — all three leave no
/// outstanding entry behind.
pub proof fn lemma_ready_iff_resolved(lock: &StepLock)
    requires
        lock.wf(),
    ensures
        (lock.pending().len() == 0) <==> (forall|id: usize| #[trigger]
            spec_has_id(lock.expected(), id) ==> spec_has_cmd(lock.collected(), id)),
{
    if lock.pending().len() == 0 {
        assert forall|id: usize| #[trigger] spec_has_id(lock.expected(), id) implies spec_has_cmd(
            lock.collected(),
            id,
        ) by {
            if spec_has_id(lock.pending(), id) {
                let k = choose|k: int| 0 <= k < lock.pending().len() && lock.pending()[k] == id;
            }
        }
    }
    if forall|id: usize| #[trigger]
        spec_has_id(lock.expected(), id) ==> spec_has_cmd(lock.collected(), id) {
        if lock.pending().len() > 0 {
            let p = lock.pending()[0];
            assert(spec_has_id(lock.pending(), p));
            assert(spec_has_id(lock.expected(), p));
            assert(spec_has_cmd(lock.collected(), p));
        }
    }
}

} // verus!
