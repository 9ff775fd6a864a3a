//! Redeploying a service: its stop, pre-start, start and post-start
//! commands run in that order, each one taken from the service or else from
//! the default configuration, skipping those set in neither; the sequence
//! stops at the first command that fails.
//!
//! Running a command is left to the caller: a `Restart` says which command
//! to run next and is told whether it succeeded.

use vstd::prelude::*;
use crate::config::Service;

verus! {

/// The service's own command, or else the default one.
pub open spec fn resolved(own: Option<String>, fallback: Option<String>) -> Option<Seq<char>> {
    match own {
        Some(c) => Some(c@),
        None => match fallback {
            Some(c) => Some(c@),
            None => None,
        },
    }
}

/// The four commands of a redeployment, in the order they run.
pub open spec fn restart_commands(service: Service, default: Service) -> Seq<Option<Seq<char>>> {
    seq![
        resolved(service.stop_command, default.stop_command),
        resolved(service.pre_start_command, default.pre_start_command),
        resolved(service.start_command, default.start_command),
        resolved(service.post_start_command, default.post_start_command),
    ]
}

/// The commands that are set, in order.
pub open spec fn present(cmds: Seq<Option<Seq<char>>>) -> Seq<Seq<char>>
    decreases cmds.len(),
{
    if cmds.len() == 0 {
        Seq::empty()
    } else {
        match cmds[0] {
            Some(c) => seq![c] + present(cmds.drop_first()),
            None => present(cmds.drop_first()),
        }
    }
}

/// Each of the four commands is chosen on its own, whatever the service sets
/// for the others: the service's own command when it sets one, else the
/// default one, else none.
pub proof fn law_each_command_falls_back_on_its_own(service: Service, default: Service)
    ensures
        restart_commands(service, default).len() == 4,
        service.stop_command matches Some(c) ==> restart_commands(service, default)[0] == Some(c@),
        service.stop_command is None ==> (default.stop_command matches Some(c) ==> restart_commands(service, default)[0]
            == Some(c@)),
        service.stop_command is None && default.stop_command is None ==> restart_commands(service, default)[0] is None,
        service.pre_start_command matches Some(c) ==> restart_commands(service, default)[1] == Some(c@),
        service.pre_start_command is None ==> (default.pre_start_command matches Some(c) ==> restart_commands(service, default)[1]
            == Some(c@)),
        service.pre_start_command is None && default.pre_start_command is None ==> restart_commands(service, default)[1] is None,
        service.start_command matches Some(c) ==> restart_commands(service, default)[2] == Some(c@),
        service.start_command is None ==> (default.start_command matches Some(c) ==> restart_commands(service, default)[2]
            == Some(c@)),
        service.start_command is None && default.start_command is None ==> restart_commands(service, default)[2] is None,
        service.post_start_command matches Some(c) ==> restart_commands(service, default)[3] == Some(c@),
        service.post_start_command is None ==> (default.post_start_command matches Some(c) ==> restart_commands(service, default)[3]
            == Some(c@)),
        service.post_start_command is None && default.post_start_command is None ==> restart_commands(service, default)[3] is None,
{
}

/// A command that is set at some step of the redeployment is run.
proof fn lemma_set_command_runs(cmds: Seq<Option<Seq<char>>>, k: int, c: Seq<char>)
    requires
        0 <= k < cmds.len(),
        cmds[k] == Some(c),
    ensures
        present(cmds).contains(c),
    decreases cmds.len(),
{
    if k == 0 {
        assert(present(cmds)[0] == c);
    } else {
        lemma_set_command_runs(cmds.drop_first(), k - 1, c);
        let i = choose|i: int| 0 <= i < present(cmds.drop_first()).len() && present(cmds.drop_first())[i] == c;
        match cmds[0] {
            Some(x) => assert((seq![x] + present(cmds.drop_first()))[i + 1] == c),
            None => assert(present(cmds)[i] == c),
        }
    }
}

/// A service that sets no start command is started with the default start
/// command, whatever else it sets, and one that sets its own is started
/// with it.
pub proof fn law_service_is_started(service: Service, default: Service)
    ensures
        service.start_command matches Some(c) ==> present(restart_commands(service, default)).contains(c@),
        service.start_command is None ==> (default.start_command matches Some(c) ==> present(
            restart_commands(service, default),
        ).contains(c@)),
{
    if let Some(c) = service.start_command {
        lemma_set_command_runs(restart_commands(service, default), 2, c@);
    } else if let Some(c) = default.start_command {
        lemma_set_command_runs(restart_commands(service, default), 2, c@);
    }
}

/// A service that sets all four commands runs exactly its own, in the
/// order stop, pre-start, start, post-start, whatever the defaults are.
pub proof fn law_own_commands_run_in_order(service: Service, default: Service)
    requires
        service.stop_command is Some,
        service.pre_start_command is Some,
        service.start_command is Some,
        service.post_start_command is Some,
    ensures
        present(restart_commands(service, default)) == seq![
            service.stop_command->0@,
            service.pre_start_command->0@,
            service.start_command->0@,
            service.post_start_command->0@,
        ],
{
    let c = restart_commands(service, default);
    reveal_with_fuel(present, 5);
    assert(c.drop_first().drop_first().drop_first().drop_first() =~= Seq::<Option<Seq<char>>>::empty());
    assert(present(c) =~= seq![
        service.stop_command->0@,
        service.pre_start_command->0@,
        service.start_command->0@,
        service.post_start_command->0@,
    ]);
}

/// A service that sets no command runs the default ones.
pub proof fn law_defaults_fill_in(service: Service, default: Service)
    requires
        service.stop_command is None,
        service.pre_start_command is None,
        service.start_command is None,
        service.post_start_command is None,
    ensures
        restart_commands(service, default) == commands_view(
            seq![
                default.stop_command,
                default.pre_start_command,
                default.start_command,
                default.post_start_command,
            ],
        ),
{
    assert(restart_commands(service, default) =~= commands_view(
        seq![
            default.stop_command,
            default.pre_start_command,
            default.start_command,
            default.post_start_command,
        ],
    ));
}

/// A command set neither by the service nor by the defaults is not run;
/// when none is set, nothing runs.
pub proof fn law_unset_commands_are_skipped(service: Service, default: Service)
    requires
        service.stop_command is None && default.stop_command is None,
        service.pre_start_command is None && default.pre_start_command is None,
        service.start_command is None && default.start_command is None,
        service.post_start_command is None && default.post_start_command is None,
    ensures
        present(restart_commands(service, default)) == Seq::<Seq<char>>::empty(),
{
    let c = restart_commands(service, default);
    reveal_with_fuel(present, 5);
    assert(c.drop_first().drop_first().drop_first().drop_first() =~= Seq::<Option<Seq<char>>>::empty());
}

/// What to do next.
pub enum RestartAction {
    /// Run this shell command (with the service's name in `SERVICE`).
    Run(String),
    /// The redeployment is over; `true` when every command succeeded.
    Finished(bool),
}

/// A redeployment in progress.
pub struct Restart {
    name: String,
    commands: Vec<Option<String>>,
    next: usize,
    failed: bool,
}

fn resolve(own: &Option<String>, fallback: &Option<String>) -> (res: Option<String>)
    ensures
        match res {
            Some(c) => resolved(*own, *fallback) == Some(c@),
            None => resolved(*own, *fallback) is None,
        },
{
    match own {
        Some(c) => Some(c.clone()),
        None => match fallback {
            Some(c) => Some(c.clone()),
            None => None,
        },
    }
}

/// Views of optional commands.
pub open spec fn commands_view(v: Seq<Option<String>>) -> Seq<Option<Seq<char>>> {
    v.map_values(
        |c: Option<String>|
            match c {
                Some(s) => Some(s@),
                None => None,
            },
    )
}

impl Restart {
    /// Name of the service being redeployed.
    pub closed spec fn service_name(&self) -> Seq<char> {
        self.name@
    }

    /// The commands still to run, if none fails.
    pub closed spec fn remaining(&self) -> Seq<Seq<char>> {
        present(commands_view(self.commands@).skip(self.next as int))
    }

    /// Whether a command has failed.
    pub closed spec fn has_failed(&self) -> bool {
        self.failed
    }

    #[verifier::type_invariant]
    spec fn next_in_range(&self) -> bool {
        self.next <= self.commands@.len()
    }

    /// The service's name, which its commands receive in `SERVICE`.
    pub fn name(&self) -> (res: &String)
        ensures
            res@ == self.service_name(),
    {
        &self.name
    }

    /// What to do next: run the next command that is set, or finish —
    /// with failure as soon as a command has failed, with success once
    /// every command has run.
    pub fn advance(&mut self) -> (res: RestartAction)
        ensures
            final(self).service_name() == old(self).service_name(),
            final(self).has_failed() == old(self).has_failed(),
            old(self).has_failed() ==> res == RestartAction::Finished(false)
                && final(self).remaining() == old(self).remaining(),
            !old(self).has_failed() && old(self).remaining().len() == 0 ==> res
                == RestartAction::Finished(true) && final(self).remaining() == old(self).remaining(),
            !old(self).has_failed() && old(self).remaining().len() > 0 ==> (res matches RestartAction::Run(c)
                && c@ == old(self).remaining()[0]) && final(self).remaining() == old(self).remaining().drop_first(),
    {
        proof {
            use_type_invariant(&*self);
        }
        if self.failed {
            return RestartAction::Finished(false);
        }
        let ghost cv = commands_view(self.commands@);
        while self.next < self.commands.len() && self.commands[self.next].is_none()
            invariant
                self.next <= self.commands@.len(),
                cv == commands_view(self.commands@),
                present(cv.skip(self.next as int)) == old(self).remaining(),
                !self.failed,
                self.name == old(self).name,
            decreases self.commands@.len() - self.next,
        {
            assert(cv.skip(self.next as int).drop_first() =~= cv.skip(self.next + 1));
            self.next = self.next + 1;
        }
        if self.next == self.commands.len() {
            assert(cv.skip(self.next as int) =~= Seq::<Option<Seq<char>>>::empty());
            return RestartAction::Finished(true);
        }
        let c = match &self.commands[self.next] {
            Some(c) => c.clone(),
            None => String::new(),
        };
        assert(cv.skip(self.next as int).drop_first() =~= cv.skip(self.next + 1));
        self.next = self.next + 1;
        RestartAction::Run(c)
    }

    /// Records whether the command last handed out succeeded.
    pub fn report(&mut self, succeeded: bool)
        ensures
            final(self).service_name() == old(self).service_name(),
            final(self).remaining() == old(self).remaining(),
            final(self).has_failed() == (old(self).has_failed() || !succeeded),
    {
        proof {
            use_type_invariant(&*self);
        }
        if !succeeded {
            self.failed = true;
        }
    }
}

/// Starts the redeployment of the service called `name`, whose own
/// commands are `service` and whose fallbacks are `default`.
pub fn restart(name: &str, service: &Service, default: &Service) -> (res: Restart)
    ensures
        res.service_name() == name@,
        res.remaining() == present(restart_commands(*service, *default)),
        !res.has_failed(),
{
    let mut commands: Vec<Option<String>> = Vec::new();
    commands.push(resolve(&service.stop_command, &default.stop_command));
    commands.push(resolve(&service.pre_start_command, &default.pre_start_command));
    commands.push(resolve(&service.start_command, &default.start_command));
    commands.push(resolve(&service.post_start_command, &default.post_start_command));
    let res = Restart { name: name.to_owned(), commands, next: 0, failed: false };
    proof {
        let cv = commands_view(res.commands@);
        assert(cv.skip(0) =~= cv);
        assert(cv =~= restart_commands(*service, *default));
    }
    res
}

} // verus!
