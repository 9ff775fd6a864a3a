//! The commands that the simpler webhook runs: for a global restart, the
//! stop, pre-start and start commands of every service (in ascending order
//! of names), then the default start command, then the post-start commands
//! of every service; for a single service, its stop, pre-start, start (or
//! the default start command when it sets no start command) and post-start
//! commands.

use vstd::prelude::*;
use crate::config::{Config, Service, ServiceMap};
use crate::standalone::error::Error;

verus! {

/// A command if it is set.
pub open spec fn command_list(c: Option<String>) -> Seq<Seq<char>> {
    match c {
        Some(s) => seq![s@],
        None => Seq::empty(),
    }
}

/// The stop, pre-start and start commands of each service, in order.
pub open spec fn starting_commands(e: Seq<(Seq<char>, Service)>) -> Seq<Seq<char>>
    decreases e.len(),
{
    if e.len() == 0 {
        Seq::empty()
    } else {
        starting_commands(e.drop_last()) + command_list(e.last().1.stop_command) + command_list(
            e.last().1.pre_start_command,
        ) + command_list(e.last().1.start_command)
    }
}

/// The post-start commands of each service, in order.
pub open spec fn post_start_commands(e: Seq<(Seq<char>, Service)>) -> Seq<Seq<char>>
    decreases e.len(),
{
    if e.len() == 0 {
        Seq::empty()
    } else {
        post_start_commands(e.drop_last()) + command_list(e.last().1.post_start_command)
    }
}

/// The commands of a global restart.
pub open spec fn global_restart(e: Seq<(Seq<char>, Service)>, default: Service) -> Seq<Seq<char>> {
    starting_commands(e) + command_list(default.start_command) + post_start_commands(e)
}

/// The commands that restart one service: stop, pre-start, start (the
/// default start command when the service sets none), post-start.
pub open spec fn service_restart(service: Service, default: Service) -> Seq<Seq<char>> {
    command_list(service.stop_command) + command_list(service.pre_start_command) + (if service.start_command is None {
        command_list(default.start_command)
    } else {
        command_list(service.start_command)
    }) + command_list(service.post_start_command)
}

/// A restarted service is started: with its own start command when it sets
/// one, else with the default start command, whatever else it sets. It is
/// stopped first when it sets a stop command, its pre-start command runs
/// when set, and its post-start command, when set, runs last.
pub proof fn law_targeted_service_is_started(service: Service, default: Service)
    ensures
        service.start_command matches Some(c) ==> service_restart(service, default).contains(c@),
        service.start_command is None ==> (default.start_command matches Some(c) ==> service_restart(
            service,
            default,
        ).contains(c@)),
        service.stop_command matches Some(c) ==> service_restart(service, default)[0] == c@,
        service.pre_start_command matches Some(c) ==> service_restart(service, default).contains(c@),
        service.post_start_command matches Some(c) ==> service_restart(service, default).last() == c@,
{
    let a = command_list(service.stop_command);
    let b = command_list(service.pre_start_command);
    let c3 = if service.start_command is None {
        command_list(default.start_command)
    } else {
        command_list(service.start_command)
    };
    let d = command_list(service.post_start_command);
    let r = service_restart(service, default);
    assert(r =~= a + b + c3 + d);
    if c3.len() == 1 {
        assert(r[(a.len() + b.len()) as int] == c3[0]);
    }
    if b.len() == 1 {
        assert(r[a.len() as int] == b[0]);
    }
    if a.len() == 1 {
        assert(r[0] == a[0]);
    }
    if d.len() == 1 {
        assert(r.last() == d[0]);
    }
}

/// Texts of a list of strings.
pub open spec fn command_texts(v: Seq<String>) -> Seq<Seq<char>> {
    v.map_values(|s: String| s@)
}

fn push_command(plan: &mut Vec<String>, c: &Option<String>)
    ensures
        command_texts(final(plan)@) == command_texts(old(plan)@) + command_list(*c),
{
    match c {
        Some(s) => {
            plan.push(s.clone());
            assert(command_texts(plan@) =~= command_texts(old(plan)@) + command_list(*c));
        },
        None => {
            assert(command_texts(plan@) =~= command_texts(old(plan)@) + command_list(*c));
        },
    }
}

/// The commands of a global restart, in the order they run.
pub fn generic(config: &Config) -> (res: Vec<String>)
    ensures
        command_texts(res@) == global_restart(config.services.entries(), config.default),
{
    let services: &ServiceMap = &config.services;
    let n = services.len();
    let ghost e = services.entries();
    let mut plan: Vec<String> = Vec::new();
    let mut i: usize = 0;
    assert(e.take(0) =~= Seq::<(Seq<char>, Service)>::empty());
    while i < n
        invariant
            n == e.len(),
            e == services.entries(),
            i <= n,
            command_texts(plan@) == starting_commands(e.take(i as int)),
        decreases n - i,
    {
        let (_, s) = services.entry(i);
        push_command(&mut plan, &s.stop_command);
        push_command(&mut plan, &s.pre_start_command);
        push_command(&mut plan, &s.start_command);
        assert(e.take(i + 1).drop_last() =~= e.take(i as int));
        i = i + 1;
    }
    assert(e.take(n as int) =~= e);
    push_command(&mut plan, &config.default.start_command);
    let ghost head = command_texts(plan@);
    let mut j: usize = 0;
    while j < n
        invariant
            n == e.len(),
            e == services.entries(),
            j <= n,
            command_texts(plan@) == head + post_start_commands(e.take(j as int)),
        decreases n - j,
    {
        let (_, s) = services.entry(j);
        push_command(&mut plan, &s.post_start_command);
        assert(e.take(j + 1).drop_last() =~= e.take(j as int));
        j = j + 1;
    }
    assert(command_texts(plan@) =~= global_restart(e, config.default));
    plan
}

/// The commands that restart the service called `name`, or
/// `ServiceNotFound` when the configuration has no such service.
pub fn targeted(config: &Config, name: &str) -> (res: Result<Vec<String>, Error>)
    ensures
        match res {
            Ok(plan) => config.services@.contains_key(name@) && command_texts(plan@) == service_restart(
                config.services@[name@],
                config.default,
            ),
            Err(e) => !config.services@.contains_key(name@) && e == Error::ServiceNotFound,
        },
{
    match config.services.get(name) {
        Some(s) => {
            let mut plan: Vec<String> = Vec::new();
            push_command(&mut plan, &s.stop_command);
            push_command(&mut plan, &s.pre_start_command);
            if s.start_command.is_none() {
                push_command(&mut plan, &config.default.start_command);
            } else {
                push_command(&mut plan, &s.start_command);
            }
            push_command(&mut plan, &s.post_start_command);
            assert(command_texts(plan@) =~= service_restart(*s, config.default));
            Ok(plan)
        },
        None => Err(Error::ServiceNotFound),
    }
}

} // verus!
