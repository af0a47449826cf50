//! Starting and stopping the local Jarvis LaunchAgents: what to ask
//! `launchctl` and the system, in which order, given the answers.

use vstd::prelude::*;
use crate::launchctl::{
    launch_agent_plist_path, launchctl_domain, launchctl_target, spec_launch_agent_plist_path,
};

verus! {

/// The background services started with the desktop app.
pub open spec fn background_labels() -> Seq<Seq<char>> {
    seq!["ai.zeroclaw.jarvis-daemon"@, "ai.zeroclaw.local-whisper"@]
}

/// The LaunchAgent of the desktop app itself.
pub open spec fn desktop_label() -> Seq<char> {
    "ai.zeroclaw.desktop-dev"@
}

/// Where a LaunchAgent start is.
#[derive(Debug, Clone, Copy, PartialEq, Eq, Structural)]
pub enum LaunchStep {
    Start,
    AwaitRunning,
    AwaitPlist,
    AwaitBootstrap,
    AwaitRecheck,
    AwaitKickstart,
    Finished,
}

/// The kind of the next request of a LaunchAgent start.
#[derive(Debug, Clone, Copy, PartialEq, Eq, Structural)]
pub enum LaunchRequest {
    CheckRunning,
    CheckPlist,
    Bootstrap,
    Kickstart,
    Done,
}

/// The next request of a LaunchAgent start.
#[derive(Debug, PartialEq, Eq)]
pub enum LaunchAction {
    /// Ask whether `launchctl list` reports the agent running.
    IsRunning { label: String },
    /// Ask whether the agent's property list is a file.
    IsFile { path: String },
    /// Run `/bin/launchctl` with these arguments (its outcome is not read).
    RunLaunchctl { args: Vec<String> },
    /// Nothing more to do.
    Done,
}

/// The start protocol: a running agent is left alone; a missing property
/// list ends the start; otherwise the agent is bootstrapped, and kickstarted
/// when it is still not running. `answer` is the answer to the previous
/// request (ignored at the start and after running `launchctl`).
pub open spec fn spec_launch_step(step: LaunchStep, answer: bool) -> (LaunchStep, LaunchRequest) {
    match step {
        LaunchStep::Start => (LaunchStep::AwaitRunning, LaunchRequest::CheckRunning),
        LaunchStep::AwaitRunning => if answer {
            (LaunchStep::Finished, LaunchRequest::Done)
        } else {
            (LaunchStep::AwaitPlist, LaunchRequest::CheckPlist)
        },
        LaunchStep::AwaitPlist => if answer {
            (LaunchStep::AwaitBootstrap, LaunchRequest::Bootstrap)
        } else {
            (LaunchStep::Finished, LaunchRequest::Done)
        },
        LaunchStep::AwaitBootstrap => (LaunchStep::AwaitRecheck, LaunchRequest::CheckRunning),
        LaunchStep::AwaitRecheck => if answer {
            (LaunchStep::Finished, LaunchRequest::Done)
        } else {
            (LaunchStep::AwaitKickstart, LaunchRequest::Kickstart)
        },
        LaunchStep::AwaitKickstart => (LaunchStep::Finished, LaunchRequest::Done),
        LaunchStep::Finished => (LaunchStep::Finished, LaunchRequest::Done),
    }
}

pub open spec fn strings_view(v: Seq<String>) -> Seq<Seq<char>> {
    v.map_values(|s: String| s@)
}

/// The start of one LaunchAgent for user `uid` with home directory `home`.
#[derive(Debug)]
pub struct AgentStarter {
    pub uid: String,
    pub home: String,
    pub label: String,
    pub step: LaunchStep,
}

impl AgentStarter {
    pub fn new(uid: &str, home: &str, label: &str) -> (s: AgentStarter)
        ensures
            s.uid@ == uid@,
            s.home@ == home@,
            s.label@ == label@,
            s.step == LaunchStep::Start,
    {
        AgentStarter {
            uid: String::from_str(uid),
            home: String::from_str(home),
            label: String::from_str(label),
            step: LaunchStep::Start,
        }
    }

    /// Takes the answer to the previous request and gives the next one.
    pub fn next(&mut self, answer: bool) -> (action: LaunchAction)
        ensures
            final(self).uid == old(self).uid,
            final(self).home == old(self).home,
            final(self).label == old(self).label,
            final(self).step == spec_launch_step(old(self).step, answer).0,
            match spec_launch_step(old(self).step, answer).1 {
                LaunchRequest::CheckRunning => action matches LaunchAction::IsRunning { label }
                    && label@ == old(self).label@,
                LaunchRequest::CheckPlist => action matches LaunchAction::IsFile { path } && path@
                    == spec_launch_agent_plist_path(old(self).home@, old(self).label@),
                LaunchRequest::Bootstrap => action matches LaunchAction::RunLaunchctl { args }
                    && strings_view(args@) == seq![
                    "bootstrap"@,
                    "gui/"@ + old(self).uid@,
                    spec_launch_agent_plist_path(old(self).home@, old(self).label@),
                ],
                LaunchRequest::Kickstart => action matches LaunchAction::RunLaunchctl { args }
                    && strings_view(args@) == seq![
                    "kickstart"@,
                    "gui/"@ + old(self).uid@ + "/"@ + old(self).label@,
                ],
                LaunchRequest::Done => action == LaunchAction::Done,
            },
    {
        match self.step {
            LaunchStep::Start => {
                self.step = LaunchStep::AwaitRunning;
                LaunchAction::IsRunning { label: self.label.clone() }
            },
            LaunchStep::AwaitRunning => {
                if answer {
                    self.step = LaunchStep::Finished;
                    LaunchAction::Done
                } else {
                    self.step = LaunchStep::AwaitPlist;
                    LaunchAction::IsFile {
                        path: launch_agent_plist_path(self.home.as_str(), self.label.as_str()),
                    }
                }
            },
            LaunchStep::AwaitPlist => {
                if answer {
                    self.step = LaunchStep::AwaitBootstrap;
                    let mut args: Vec<String> = Vec::new();
                    args.push(String::from_str("bootstrap"));
                    args.push(launchctl_domain(self.uid.as_str()));
                    args.push(launch_agent_plist_path(self.home.as_str(), self.label.as_str()));
                    LaunchAction::RunLaunchctl { args }
                } else {
                    self.step = LaunchStep::Finished;
                    LaunchAction::Done
                }
            },
            LaunchStep::AwaitBootstrap => {
                self.step = LaunchStep::AwaitRecheck;
                LaunchAction::IsRunning { label: self.label.clone() }
            },
            LaunchStep::AwaitRecheck => {
                if answer {
                    self.step = LaunchStep::Finished;
                    LaunchAction::Done
                } else {
                    self.step = LaunchStep::AwaitKickstart;
                    let mut args: Vec<String> = Vec::new();
                    args.push(String::from_str("kickstart"));
                    args.push(launchctl_target(self.uid.as_str(), self.label.as_str()));
                    LaunchAction::RunLaunchctl { args }
                }
            },
            LaunchStep::AwaitKickstart => {
                self.step = LaunchStep::Finished;
                LaunchAction::Done
            },
            LaunchStep::Finished => LaunchAction::Done,
        }
    }
}

/// Law: an agent is bootstrapped only when it was found not running and its
/// property list is a file, and kickstarted only when it is still not
/// running after the bootstrap; every start ends after at most six requests.
pub proof fn law_start_leaves_running_agents_alone(step: LaunchStep, answer: bool)
    ensures
        spec_launch_step(step, answer).1 == LaunchRequest::Bootstrap ==> step
            == LaunchStep::AwaitPlist && answer,
        spec_launch_step(step, answer).0 == LaunchStep::AwaitPlist ==> step
            == LaunchStep::AwaitRunning && !answer,
        spec_launch_step(step, answer).1 == LaunchRequest::Kickstart ==> step
            == LaunchStep::AwaitRecheck && !answer,
        spec_launch_step(step, answer).0 == LaunchStep::AwaitRecheck ==> step
            == LaunchStep::AwaitBootstrap,
        spec_launch_step(step, answer).1 == LaunchRequest::Done ==> spec_launch_step(step, answer).0
            == LaunchStep::Finished,
{
}

/// The starts to run when the desktop app launches: one per background
/// service, when the user id and the home directory are known.
pub fn start_background_services(uid: Option<&str>, home: Option<&str>) -> (starters: Vec<AgentStarter>)
    ensures
        (uid is None || home is None) ==> starters@.len() == 0,
        (uid is Some && home is Some) ==> {
            &&& starters@.len() == 2
            &&& forall|i: int|
                0 <= i < 2 ==> #[trigger] starters@[i].label@ == background_labels()[i]
                    && starters@[i].uid@ == uid->0@ && starters@[i].home@ == home->0@
                    && starters@[i].step == LaunchStep::Start
        },
{
    let mut starters: Vec<AgentStarter> = Vec::new();
    match (uid, home) {
        (Some(u), Some(h)) => {
            starters.push(AgentStarter::new(u, h, "ai.zeroclaw.jarvis-daemon"));
            starters.push(AgentStarter::new(u, h, "ai.zeroclaw.local-whisper"));
        },
        _ => {},
    }
    starters
}

/// One step of quitting completely.
#[derive(Debug, PartialEq, Eq)]
pub enum QuitAction {
    /// Run `/bin/launchctl bootout` on this service target.
    Bootout { target: String },
    /// Stop the local TTS server process.
    KillLocalTts,
    /// Run this shell script in the background.
    ScheduleDesktopBootout { script: String },
}

/// The shell script that boots the desktop app's agent out shortly after quitting.
pub open spec fn spec_desktop_bootout_script(uid: Seq<char>) -> Seq<char> {
    "sleep 0.35; /bin/launchctl bootout "@ + ("gui/"@ + uid + "/"@ + desktop_label())
        + " >/dev/null 2>&1"@
}

/// The steps of quitting completely: without a user id only the TTS server
/// is stopped; otherwise the background services are booted out, the TTS
/// server stopped, and the desktop agent's bootout scheduled.
pub fn quit_completely(uid: Option<&str>) -> (plan: Vec<QuitAction>)
    ensures
        uid is None ==> plan@ == seq![QuitAction::KillLocalTts],
        uid matches Some(u) ==> {
            &&& plan@.len() == 4
            &&& plan@[0] matches QuitAction::Bootout { target } && target@ == "gui/"@ + u@ + "/"@
                + background_labels()[0]
            &&& plan@[1] matches QuitAction::Bootout { target } && target@ == "gui/"@ + u@ + "/"@
                + background_labels()[1]
            &&& plan@[2] == QuitAction::KillLocalTts
            &&& plan@[3] matches QuitAction::ScheduleDesktopBootout { script } && script@
                == spec_desktop_bootout_script(u@)
        },
{
    let mut plan: Vec<QuitAction> = Vec::new();
    match uid {
        None => {
            plan.push(QuitAction::KillLocalTts);
        },
        Some(u) => {
            plan.push(
                QuitAction::Bootout { target: launchctl_target(u, "ai.zeroclaw.jarvis-daemon") },
            );
            plan.push(
                QuitAction::Bootout { target: launchctl_target(u, "ai.zeroclaw.local-whisper") },
            );
            plan.push(QuitAction::KillLocalTts);
            let mut script = String::from_str("sleep 0.35; /bin/launchctl bootout ");
            let target = launchctl_target(u, "ai.zeroclaw.desktop-dev");
            script.append(target.as_str());
            script.append(" >/dev/null 2>&1");
            plan.push(QuitAction::ScheduleDesktopBootout { script });
        },
    }
    plan
}

} // verus!
