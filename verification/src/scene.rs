use vstd::prelude::*;

verus! {

/// What a game object asks of the scene when it is updated: to be removed,
/// or to have a new game object added.
pub enum SceneCommand<G> {
    Kill,
    Spawn(G),
}

/// The game objects added to spawn lists by a list of commands, in order.
pub open spec fn spawned<G>(cmds: Seq<SceneCommand<G>>) -> Seq<G>
    decreases cmds.len(),
{
    if cmds.len() == 0 {
        seq![]
    } else {
        spawned(cmds.drop_last()) + match cmds.last() {
            SceneCommand::Spawn(g) => seq![g],
            SceneCommand::Kill => seq![],
        }
    }
}

/// A list of commands holds a kill.
pub open spec fn is_killed<G>(cmds: Seq<SceneCommand<G>>) -> bool {
    exists|i: int| 0 <= i < cmds.len() && #[trigger] cmds[i] is Kill
}

/// The game objects among `objects` whose own command list (the one at the
/// same index in `commands`) holds no kill, in their order.
pub open spec fn survivors<G>(objects: Seq<G>, commands: Seq<Vec<SceneCommand<G>>>) -> Seq<G>
    decreases objects.len(),
{
    if objects.len() == 0 {
        seq![]
    } else {
        survivors(objects.drop_last(), commands) + if is_killed(commands[objects.len() - 1]@) {
            seq![]
        } else {
            seq![objects.last()]
        }
    }
}

/// The game objects that all the command lists spawn, list after list.
pub open spec fn all_spawned<G>(commands: Seq<Vec<SceneCommand<G>>>) -> Seq<G>
    decreases commands.len(),
{
    if commands.len() == 0 {
        seq![]
    } else {
        all_spawned(commands.drop_last()) + spawned(commands.last()@)
    }
}

/// The game objects of a scene after each object's commands are carried
/// out: the objects that were not killed, in their order, then the spawned
/// ones in the order they were asked for.
pub open spec fn after_commands<G>(objects: Seq<G>, commands: Seq<Vec<SceneCommand<G>>>) -> Seq<G> {
    survivors(objects, commands) + all_spawned(commands)
}

/// The game objects that the renderer draws, in the order they were added.
pub struct Scene<G> {
    game_objects: Vec<G>,
}

impl<G> View for Scene<G> {
    type V = Seq<G>;

    open spec fn view(&self) -> Seq<G> {
        self.spec_game_objects()
    }
}

impl<G> Scene<G> {
    /// The scene's game objects.
    pub closed spec fn spec_game_objects(&self) -> Seq<G> {
        self.game_objects@
    }

    /// An empty scene.
    pub fn new() -> (scene: Self)
        ensures
            scene@ == Seq::<G>::empty(),
    {
        Scene { game_objects: Vec::new() }
    }

    /// Adds a game object after the others.
    pub fn add(&mut self, game_object: G)
        ensures
            final(self)@ == old(self)@.push(game_object),
    {
        self.game_objects.push(game_object);
    }

    /// The scene's game objects, in order.
    pub fn game_objects(&self) -> (objects: &Vec<G>)
        ensures
            objects@ == self@,
    {
        &self.game_objects
    }

    /// The scene's game objects, to update in place; what the borrow leaves
    /// in the vector is the scene afterwards.
    pub fn game_objects_mut(&mut self) -> (objects: &mut Vec<G>)
        ensures
            objects@ == old(self)@,
            final(self)@ == final(objects)@,
    {
        &mut self.game_objects
    }

    /// The number of game objects.
    pub fn len(&self) -> (n: usize)
        ensures
            n == self@.len(),
    {
        self.game_objects.len()
    }

    /// Carries out the commands that the game objects returned from their
    /// update, `commands[i]` being those of the `i`-th object: an object with
    /// a kill among its commands leaves the scene, and every spawned object
    /// joins it at the end, in the order it was asked for.
    pub fn apply_commands(&mut self, commands: Vec<Vec<SceneCommand<G>>>)
        requires
            commands@.len() == old(self)@.len(),
        ensures
            final(self)@ == after_commands(old(self)@, commands@),
    {
        let ghost objs0 = self.game_objects@;
        let ghost cmds0 = commands@;
        let mut objects: Vec<G> = Vec::new();
        std::mem::swap(&mut objects, &mut self.game_objects);
        let mut commands = commands;
        let mut kept: Vec<G> = Vec::new();
        let mut spawns: Vec<G> = Vec::new();
        let n = objects.len();
        let mut i: usize = 0;
        while i < n
            invariant
                n == objs0.len(),
                cmds0.len() == n,
                i <= n,
                objects@ == objs0.skip(i as int),
                commands@ == cmds0.skip(i as int),
                kept@ == survivors(objs0.take(i as int), cmds0),
                spawns@ == all_spawned(cmds0.take(i as int)),
            decreases n - i,
        {
            let game_object = objects.remove(0);
            let mut cmds = commands.remove(0);
            let ghost own = cmds@;
            assert(own == cmds0[i as int]@);
            let mut keep = true;
            let ghost spawns_before = spawns@;
            let m = cmds.len();
            let mut j: usize = 0;
            while j < m
                invariant
                    m == own.len(),
                    j <= m,
                    cmds@ == own.skip(j as int),
                    keep == !is_killed(own.take(j as int)),
                    spawns@ == spawns_before + spawned(own.take(j as int)),
                decreases m - j,
            {
                let command = cmds.remove(0);
                assert(own.take(j + 1).drop_last() =~= own.take(j as int));
                assert(own.take(j + 1).last() == command);
                match command {
                    SceneCommand::Kill => {
                        keep = false;
                        assert(own.take(j + 1)[j as int] is Kill);
                    },
                    SceneCommand::Spawn(g) => {
                        spawns.push(g);
                    },
                }
                proof {
                    if !keep {
                        if is_killed(own.take(j as int)) {
                            let k = choose|k: int| 0 <= k < j && #[trigger] own.take(j as int)[k] is Kill;
                            assert(own.take(j + 1)[k] is Kill);
                        }
                    } else {
                        assert forall|k: int| 0 <= k < j + 1 implies !(#[trigger] own.take(j + 1)[k] is Kill) by {
                            if k < j {
                                assert(own.take(j as int)[k] == own.take(j + 1)[k]);
                            }
                        }
                    }
                }
                assert(spawns@ =~= spawns_before + spawned(own.take(j + 1)));
                j = j + 1;
            }
            assert(own.take(m as int) =~= own);
            assert(objs0.take(i + 1).drop_last() =~= objs0.take(i as int));
            assert(objs0.take(i + 1).last() == game_object);
            assert(cmds0.take(i + 1).drop_last() =~= cmds0.take(i as int));
            assert(cmds0.take(i + 1).last() == cmds0[i as int]);
            if keep {
                kept.push(game_object);
            }
            assert(kept@ =~= survivors(objs0.take(i + 1), cmds0));
            assert(spawns@ =~= all_spawned(cmds0.take(i + 1)));
            i = i + 1;
        }
        assert(objs0.take(n as int) =~= objs0);
        assert(cmds0.take(n as int) =~= cmds0);
        let ghost kept0 = kept@;
        let ghost spawns0 = spawns@;
        let s = spawns.len();
        let mut k: usize = 0;
        while k < s
            invariant
                s == spawns0.len(),
                k <= s,
                spawns@ == spawns0.skip(k as int),
                kept@ == kept0 + spawns0.take(k as int),
            decreases s - k,
        {
            let g = spawns.remove(0);
            kept.push(g);
            assert(kept@ =~= kept0 + spawns0.take(k + 1));
            k = k + 1;
        }
        assert(spawns0.take(s as int) =~= spawns0);
        self.game_objects = kept;
    }
}

/// An update in which no game object returns a command leaves the scene as
/// it was.
pub proof fn lemma_quiet_update_keeps_scene<G>(objects: Seq<G>, commands: Seq<Vec<SceneCommand<G>>>)
    requires
        commands.len() == objects.len(),
        forall|i: int| 0 <= i < commands.len() ==> (#[trigger] commands[i])@.len() == 0,
    ensures
        after_commands(objects, commands) == objects,
    decreases objects.len(),
{
    lemma_quiet_prefix(objects, commands, objects.len() as int);
    assert(objects.take(objects.len() as int) =~= objects);
    assert(commands.take(commands.len() as int) =~= commands);
    assert(after_commands(objects, commands) =~= objects);
}

proof fn lemma_quiet_prefix<G>(objects: Seq<G>, commands: Seq<Vec<SceneCommand<G>>>, n: int)
    requires
        commands.len() == objects.len(),
        0 <= n <= objects.len(),
        forall|i: int| 0 <= i < commands.len() ==> (#[trigger] commands[i])@.len() == 0,
    ensures
        survivors(objects.take(n), commands) == objects.take(n),
        all_spawned(commands.take(n)) == Seq::<G>::empty(),
    decreases n,
{
    if n > 0 {
        lemma_quiet_prefix(objects, commands, n - 1);
        assert(objects.take(n).drop_last() =~= objects.take(n - 1));
        assert(commands.take(n).drop_last() =~= commands.take(n - 1));
        assert(commands[n - 1]@.len() == 0);
        assert(spawned(commands[n - 1]@) =~= Seq::<G>::empty());
        assert(objects.take(n) =~= objects.take(n - 1).push(objects[n - 1]));
        assert(survivors(objects.take(n), commands) =~= objects.take(n));
        assert(all_spawned(commands.take(n)) =~= Seq::<G>::empty());
    }
}

/// An update in which no game object kills itself keeps every object, in
/// its place at the front, and adds the spawned ones after them.
pub proof fn lemma_unkilled_objects_stay_first<G>(objects: Seq<G>, commands: Seq<Vec<SceneCommand<G>>>)
    requires
        commands.len() == objects.len(),
        forall|i: int| 0 <= i < commands.len() ==> !is_killed(#[trigger] commands[i]@),
    ensures
        after_commands(objects, commands) == objects + all_spawned(commands),
{
    lemma_unkilled_prefix(objects, commands, objects.len() as int);
    assert(objects.take(objects.len() as int) =~= objects);
}

proof fn lemma_unkilled_prefix<G>(objects: Seq<G>, commands: Seq<Vec<SceneCommand<G>>>, n: int)
    requires
        commands.len() == objects.len(),
        0 <= n <= objects.len(),
        forall|i: int| 0 <= i < commands.len() ==> !is_killed(#[trigger] commands[i]@),
    ensures
        survivors(objects.take(n), commands) == objects.take(n),
    decreases n,
{
    if n > 0 {
        lemma_unkilled_prefix(objects, commands, n - 1);
        assert(objects.take(n).drop_last() =~= objects.take(n - 1));
        assert(!is_killed(commands[n - 1]@));
        assert(objects.take(n) =~= objects.take(n - 1).push(objects[n - 1]));
        assert(survivors(objects.take(n), commands) =~= objects.take(n));
    }
}

/// An update in which every game object kills itself leaves only the game
/// objects they spawned.
pub proof fn lemma_all_killed_leaves_spawned<G>(objects: Seq<G>, commands: Seq<Vec<SceneCommand<G>>>)
    requires
        commands.len() == objects.len(),
        forall|i: int| 0 <= i < commands.len() ==> is_killed(#[trigger] commands[i]@),
    ensures
        after_commands(objects, commands) == all_spawned(commands),
{
    lemma_killed_prefix(objects, commands, objects.len() as int);
    assert(objects.take(objects.len() as int) =~= objects);
    assert(after_commands(objects, commands) =~= all_spawned(commands));
}

proof fn lemma_killed_prefix<G>(objects: Seq<G>, commands: Seq<Vec<SceneCommand<G>>>, n: int)
    requires
        commands.len() == objects.len(),
        0 <= n <= objects.len(),
        forall|i: int| 0 <= i < commands.len() ==> is_killed(#[trigger] commands[i]@),
    ensures
        survivors(objects.take(n), commands) == Seq::<G>::empty(),
    decreases n,
{
    if n > 0 {
        lemma_killed_prefix(objects, commands, n - 1);
        assert(objects.take(n).drop_last() =~= objects.take(n - 1));
        assert(is_killed(commands[n - 1]@));
        assert(survivors(objects.take(n), commands) =~= Seq::<G>::empty());
    }
}

/// The spawns of a command list are the payloads of its spawn commands in
/// order, whatever kills stand among them: no command spawns nothing, a
/// spawn command spawns its object, a kill spawns nothing, and the spawns of
/// two lists one after the other are those of the first, then those of the
/// second.
pub proof fn lemma_spawned_is_the_spawn_payloads<G>(a: Seq<SceneCommand<G>>, b: Seq<SceneCommand<G>>, g: G)
    ensures
        spawned(Seq::<SceneCommand<G>>::empty()) == Seq::<G>::empty(),
        spawned(seq![SceneCommand::Spawn(g)]) == seq![g],
        spawned(seq![SceneCommand::<G>::Kill]) == Seq::<G>::empty(),
        spawned(a + b) == spawned(a) + spawned(b),
    decreases b.len(),
{
    let one = seq![SceneCommand::Spawn(g)];
    assert(one.drop_last() =~= Seq::<SceneCommand<G>>::empty());
    assert(spawned(one.drop_last()) == Seq::<G>::empty());
    assert(one.last() == SceneCommand::Spawn(g));
    assert(spawned(one) =~= seq![g]);
    let kill = seq![SceneCommand::<G>::Kill];
    assert(kill.drop_last() =~= Seq::<SceneCommand<G>>::empty());
    assert(spawned(kill.drop_last()) == Seq::<G>::empty());
    assert(spawned(kill) =~= Seq::<G>::empty());
    if b.len() == 0 {
        assert(a + b =~= a);
        assert(spawned(a) + spawned(b) =~= spawned(a));
    } else {
        lemma_spawned_is_the_spawn_payloads(a, b.drop_last(), g);
        assert((a + b).drop_last() =~= a + b.drop_last());
        assert((a + b).last() == b.last());
        assert(spawned(a + b) =~= spawned(a) + spawned(b));
    }
}

/// A command list holds a kill exactly when one of its commands is a kill:
/// a kill alone is one, a spawn alone or no command is none, and two lists
/// one after the other hold a kill when either does.
pub proof fn lemma_is_killed_is_any_kill<G>(a: Seq<SceneCommand<G>>, b: Seq<SceneCommand<G>>, g: G)
    ensures
        !is_killed(Seq::<SceneCommand<G>>::empty()),
        !is_killed(seq![SceneCommand::Spawn(g)]),
        is_killed(seq![SceneCommand::<G>::Kill]),
        is_killed(a + b) == (is_killed(a) || is_killed(b)),
{
    let kill = seq![SceneCommand::<G>::Kill];
    assert(kill[0] is Kill);
    let one = seq![SceneCommand::Spawn(g)];
    assert(!is_killed(one)) by {
        assert forall|i: int| 0 <= i < one.len() implies !(#[trigger] one[i] is Kill) by {
            assert(one[i] == SceneCommand::Spawn(g));
        }
    }
    let ab = a + b;
    if is_killed(a) {
        let i = choose|i: int| 0 <= i < a.len() && #[trigger] a[i] is Kill;
        assert(ab[i] == a[i]);
    }
    if is_killed(b) {
        let i = choose|i: int| 0 <= i < b.len() && #[trigger] b[i] is Kill;
        assert(ab[a.len() + i] == b[i]);
    }
    if is_killed(ab) {
        let i = choose|i: int| 0 <= i < ab.len() && #[trigger] ab[i] is Kill;
        if i < a.len() {
            assert(ab[i] == a[i]);
        } else {
            assert(ab[i] == b[i - a.len()]);
        }
    }
}

/// The objects spawned by the command lists of a scene are those of each
/// list, list after list.
pub proof fn lemma_all_spawned_concatenates<G>(
    a: Seq<Vec<SceneCommand<G>>>,
    b: Seq<Vec<SceneCommand<G>>>,
    v: Vec<SceneCommand<G>>,
)
    ensures
        all_spawned(Seq::<Vec<SceneCommand<G>>>::empty()) == Seq::<G>::empty(),
        all_spawned(seq![v]) == spawned(v@),
        all_spawned(a + b) == all_spawned(a) + all_spawned(b),
    decreases b.len(),
{
    let one = seq![v];
    assert(one.drop_last() =~= Seq::<Vec<SceneCommand<G>>>::empty());
    assert(all_spawned(one.drop_last()) == Seq::<G>::empty());
    assert(one.last() == v);
    assert(all_spawned(one) =~= spawned(v@));
    if b.len() == 0 {
        assert(a + b =~= a);
        assert(all_spawned(a) + all_spawned(b) =~= all_spawned(a));
    } else {
        lemma_all_spawned_concatenates(a, b.drop_last(), v);
        assert((a + b).drop_last() =~= a + b.drop_last());
        assert((a + b).last() == b.last());
        assert(all_spawned(a + b) =~= all_spawned(a) + all_spawned(b));
    }
}

/// The survivors of a scene are kept in their order, each exactly when its
/// own command list holds no kill: one object survives alone exactly when
/// its list holds no kill, and the survivors of two runs of objects are
/// those of the first run, then those of the second (judged by the command
/// lists that follow the first run's).
pub proof fn lemma_survivors_keep_the_unkilled<G>(
    a: Seq<G>,
    b: Seq<G>,
    commands: Seq<Vec<SceneCommand<G>>>,
    o: G,
    c: Vec<SceneCommand<G>>,
)
    requires
        a.len() + b.len() <= commands.len(),
    ensures
        survivors(seq![o], seq![c]) == if is_killed(c@) {
            Seq::<G>::empty()
        } else {
            seq![o]
        },
        survivors(a + b, commands) == survivors(a, commands) + survivors(b, commands.skip(a.len() as int)),
    decreases b.len(),
{
    let one = seq![o];
    assert(one.drop_last() =~= Seq::<G>::empty());
    assert(survivors(one.drop_last(), seq![c]) == Seq::<G>::empty());
    assert(one.last() == o);
    assert(seq![c][0] == c);
    assert(survivors(one, seq![c]) =~= if is_killed(c@) {
        Seq::<G>::empty()
    } else {
        seq![o]
    });
    if b.len() == 0 {
        assert(a + b =~= a);
        assert(survivors(a, commands) + survivors(b, commands.skip(a.len() as int)) =~= survivors(a, commands));
    } else {
        lemma_survivors_keep_the_unkilled(a, b.drop_last(), commands, o, c);
        assert((a + b).drop_last() =~= a + b.drop_last());
        assert((a + b).last() == b.last());
        assert(commands[(a + b).len() - 1] == commands.skip(a.len() as int)[b.len() - 1]);
        assert(survivors(a + b, commands) =~= survivors(a, commands) + survivors(
            b,
            commands.skip(a.len() as int),
        ));
    }
}

} // verus!
