//! Reading the output of `osascript` and `launchctl list`, and the names
//! that `launchctl` is called with.

use vstd::prelude::*;
use crate::text::{
    chars_eq, chars_of, lines, split_lines, string_of, trim, trim_chars, words,
};
use crate::numbers::{parse_i32, parse_u8, spec_parse_i32, spec_parse_u8};
use crate::segments::{split_words, views};

verus! {

/// The LaunchAgents of the local Jarvis runtime, in the order they are reported.
pub open spec fn jarvis_labels() -> Seq<Seq<char>> {
    seq!["ai.zeroclaw.jarvis-daemon"@, "ai.zeroclaw.local-whisper"@, "ai.zeroclaw.desktop-dev"@]
}

/// The state of one LaunchAgent.
#[derive(Debug)]
pub struct LaunchAgentInfo {
    pub label: String,
    pub pid: Option<i32>,
    pub last_exit_status: Option<i32>,
    pub running: bool,
}

/// The plain value of a `LaunchAgentInfo`: label, pid, last exit status, running.
pub type AgentView = (Seq<char>, Option<i32>, Option<i32>, bool);

pub open spec fn info_view(i: LaunchAgentInfo) -> AgentView {
    (i.label@, i.pid, i.last_exit_status, i.running)
}

/// The volume that `osascript` printed: `None` for blank output, else the
/// number capped at 100; any other text is an error naming it.
pub open spec fn spec_parse_output_volume(raw: Seq<char>) -> Result<Option<u8>, Seq<char>> {
    let t = trim(raw);
    if t.len() == 0 {
        Ok(None)
    } else {
        match spec_parse_u8(t) {
            Some(v) => Ok(Some(if v > 100 {
                100u8
            } else {
                v
            })),
            None => Err("invalid output volume: "@ + t),
        }
    }
}

pub fn parse_output_volume(raw: &str) -> (r: Result<Option<u8>, String>)
    ensures
        match r {
            Ok(v) => spec_parse_output_volume(raw@) == Ok::<Option<u8>, Seq<char>>(v),
            Err(e) => spec_parse_output_volume(raw@) == Err::<Option<u8>, Seq<char>>(e@),
        },
{
    let chars = chars_of(raw);
    let trimmed = trim_chars(&chars);
    if trimmed.len() == 0 {
        return Ok(None);
    }
    match parse_u8(&trimmed) {
        Some(v) => Ok(Some(if v > 100 {
            100u8
        } else {
            v
        })),
        None => {
            let mut msg = String::from_str("invalid output volume: ");
            let t = string_of(&trimmed);
            msg.append(t.as_str());
            Err(msg)
        },
    }
}

/// One line of `launchctl list` (`PID STATUS LABEL`) for a Jarvis agent:
/// the PID and status when they are numbers; running when the PID is positive.
pub open spec fn spec_parse_launchctl_line(line: Seq<char>) -> Option<AgentView> {
    let ws = words(line);
    if ws.len() < 3 || !jarvis_labels().contains(ws[2]) {
        None
    } else {
        let pid = spec_parse_i32(ws[0]);
        Some((ws[2], pid, spec_parse_i32(ws[1]), pid matches Some(v) && v > 0))
    }
}

/// The state of `label` in the first of `ls` that reports it.
pub open spec fn spec_find_agent(ls: Seq<Seq<char>>, label: Seq<char>) -> Option<AgentView>
    decreases ls.len(),
{
    if ls.len() == 0 {
        None
    } else {
        match spec_parse_launchctl_line(ls[0]) {
            Some(info) if info.0 == label => Some(info),
            _ => spec_find_agent(ls.drop_first(), label),
        }
    }
}

/// The state of each Jarvis agent in `raw`; an agent that no line reports is
/// not running and has no PID or status.
pub open spec fn spec_parse_launchctl_list(raw: Seq<char>) -> Seq<AgentView> {
    jarvis_labels().map_values(
        |l: Seq<char>|
            match spec_find_agent(lines(raw), l) {
                Some(info) => info,
                None => (l, None, None, false),
            },
    )
}

/// Some line of `raw` reports `label` with a positive PID.
pub open spec fn spec_parse_launchctl_running(raw: Seq<char>, label: Seq<char>) -> bool {
    exists|i: int|
        0 <= i < lines(raw).len() && {
            let ws = words(#[trigger] lines(raw)[i]);
            &&& ws.len() >= 3
            &&& ws[2] == label
            &&& spec_parse_i32(ws[0]) matches Some(v) && v > 0
        }
}

/// The labels of the Jarvis LaunchAgents.
pub fn jarvis_launch_agents() -> (v: Vec<&'static str>)
    ensures
        v@.map_values(|s: &str| s@) == jarvis_labels(),
{
    let v = vec!["ai.zeroclaw.jarvis-daemon", "ai.zeroclaw.local-whisper", "ai.zeroclaw.desktop-dev"];
    assert(v@.map_values(|s: &str| s@) == jarvis_labels());
    v
}

fn is_jarvis_label(label: &Vec<char>) -> (r: bool)
    ensures
        r == jarvis_labels().contains(label@),
{
    let labels = jarvis_launch_agents();
    let mut i: usize = 0;
    while i < labels.len()
        invariant
            labels@.map_values(|s: &str| s@) == jarvis_labels(),
            i <= labels.len(),
            forall|j: int| 0 <= j < i ==> jarvis_labels()[j] != label@,
        decreases labels.len() - i,
    {
        let l = chars_of(labels[i]);
        assert(jarvis_labels()[i as int] == labels@[i as int]@);
        if chars_eq(&l, label) {
            return true;
        }
        i += 1;
    }
    false
}

fn parse_line_chars(line: &Vec<char>) -> (r: Option<LaunchAgentInfo>)
    ensures
        match r {
            Some(info) => spec_parse_launchctl_line(line@) == Some(info_view(info)),
            None => spec_parse_launchctl_line(line@) is None,
        },
{
    let ws = split_words(line);
    assert(views(ws@) == words(line@));
    if ws.len() < 3 {
        return None;
    }
    assert(ws@[2]@ == words(line@)[2]);
    assert(ws@[0]@ == words(line@)[0]);
    assert(ws@[1]@ == words(line@)[1]);
    if !is_jarvis_label(&ws[2]) {
        return None;
    }
    let pid = parse_i32(&ws[0]);
    let last_exit_status = parse_i32(&ws[1]);
    let running = match pid {
        Some(value) => value > 0,
        None => false,
    };
    Some(LaunchAgentInfo { label: string_of(&ws[2]), pid, last_exit_status, running })
}

/// Reads one line of `launchctl list` as the state of a Jarvis agent.
pub fn parse_launchctl_line(line: &str) -> (r: Option<LaunchAgentInfo>)
    ensures
        match r {
            Some(info) => spec_parse_launchctl_line(line@) == Some(info_view(info)),
            None => spec_parse_launchctl_line(line@) is None,
        },
{
    let chars = chars_of(line);
    parse_line_chars(&chars)
}

/// The state of `label` in the first line of `ls` that reports it.
fn find_agent(ls: &Vec<Vec<char>>, label: &Vec<char>) -> (r: Option<LaunchAgentInfo>)
    ensures
        match r {
            Some(info) => spec_find_agent(ls@.map_values(|x: Vec<char>| x@), label@) == Some(
                info_view(info),
            ),
            None => spec_find_agent(ls@.map_values(|x: Vec<char>| x@), label@) is None,
        },
{
    let ghost lv = ls@.map_values(|x: Vec<char>| x@);
    let mut j: usize = 0;
    assert(lv.skip(0) == lv);
    while j < ls.len()
        invariant
            lv == ls@.map_values(|x: Vec<char>| x@),
            j <= ls.len(),
            spec_find_agent(lv, label@) == spec_find_agent(lv.skip(j as int), label@),
        decreases ls.len() - j,
    {
        assert(lv.skip(j as int)[0] == ls@[j as int]@);
        assert(lv.skip(j as int).drop_first() == lv.skip(j + 1));
        match parse_line_chars(&ls[j]) {
            Some(info) => {
                let l2 = chars_of(info.label.as_str());
                if chars_eq(&l2, label) {
                    return Some(info);
                }
            },
            None => {},
        }
        j += 1;
    }
    assert(lv.skip(j as int).len() == 0);
    None
}

/// The state of each Jarvis agent, in the order of `jarvis_launch_agents`.
#[verifier::rlimit(30)]
pub fn parse_launchctl_list(raw: &str) -> (out: Vec<LaunchAgentInfo>)
    ensures
        out@.map_values(|i: LaunchAgentInfo| info_view(i)) == spec_parse_launchctl_list(raw@),
{
    let chars = chars_of(raw);
    let ls = split_lines(&chars);
    let ghost lv = ls@.map_values(|x: Vec<char>| x@);
    let labels = jarvis_launch_agents();
    let mut out: Vec<LaunchAgentInfo> = Vec::new();
    let mut k: usize = 0;
    while k < labels.len()
        invariant
            lv == ls@.map_values(|x: Vec<char>| x@),
            lv == lines(raw@),
            labels@.map_values(|s: &str| s@) == jarvis_labels(),
            k <= labels.len(),
            out@.map_values(|i: LaunchAgentInfo| info_view(i)) == spec_parse_launchctl_list(
                raw@,
            ).take(k as int),
        decreases labels.len() - k,
    {
        let label = chars_of(labels[k]);
        assert(label@ == jarvis_labels()[k as int]);
        let found = find_agent(&ls, &label);
        let ghost expected = spec_parse_launchctl_list(raw@)[k as int];
        let entry = match found {
            Some(info) => info,
            None => {
                LaunchAgentInfo {
                    label: string_of(&label),
                    pid: None,
                    last_exit_status: None,
                    running: false,
                }
            },
        };
        assert(info_view(entry) == expected);
        let ghost before = out@.map_values(|i: LaunchAgentInfo| info_view(i));
        out.push(entry);
        assert(out@.map_values(|i: LaunchAgentInfo| info_view(i)) == before.push(expected));
        k += 1;
        assert(spec_parse_launchctl_list(raw@).take(k as int) == before.push(expected));
    }
    assert(spec_parse_launchctl_list(raw@).take(3) == spec_parse_launchctl_list(raw@));
    out
}

/// Whether `raw` (the output of `launchctl list`) reports `label` with a positive PID.
#[verifier::rlimit(30)]
pub fn parse_launchctl_running(raw: &str, label: &str) -> (running: bool)
    ensures
        running == spec_parse_launchctl_running(raw@, label@),
{
    let chars = chars_of(raw);
    let ls = split_lines(&chars);
    let ghost lv = ls@.map_values(|x: Vec<char>| x@);
    let want = chars_of(label);
    let mut i: usize = 0;
    while i < ls.len()
        invariant
            lv == ls@.map_values(|x: Vec<char>| x@),
            lv == lines(raw@),
            want@ == label@,
            i <= ls.len(),
            forall|j: int|
                0 <= j < i ==> !({
                    let ws = words(#[trigger] lines(raw@)[j]);
                    &&& ws.len() >= 3
                    &&& ws[2] == label@
                    &&& spec_parse_i32(ws[0]) matches Some(v) && v > 0
                }),
        decreases ls.len() - i,
    {
        let ws = split_words(&ls[i]);
        assert(lv[i as int] == ls@[i as int]@);
        let ghost wv = words(lines(raw@)[i as int]);
        assert(views(ws@) == wv);
        if ws.len() >= 3 {
            assert(ws@[2]@ == wv[2]);
            assert(ws@[0]@ == wv[0]);
            if chars_eq(&ws[2], &want) {
                match parse_i32(&ws[0]) {
                    Some(v) => {
                        if v > 0 {
                            return true;
                        }
                    },
                    None => {},
                }
            }
        }
        i += 1;
    }
    false
}

/// The launchd domain of the GUI session of user `uid`.
pub fn launchctl_domain(uid: &str) -> (domain: String)
    ensures
        domain@ == "gui/"@ + uid@,
{
    let mut d = String::from_str("gui/");
    d.append(uid);
    d
}

/// The launchd service target of `label` in the GUI session of user `uid`.
pub fn launchctl_target(uid: &str, label: &str) -> (target: String)
    ensures
        target@ == "gui/"@ + uid@ + "/"@ + label@,
{
    let mut t = launchctl_domain(uid);
    t.append("/");
    t.append(label);
    t
}

/// `Path::join` of a relative or absolute part onto a Unix path: an absolute
/// part replaces the path; otherwise a `/` is put between them unless the
/// path is empty or already ends with one.
pub open spec fn path_join(base: Seq<char>, part: Seq<char>) -> Seq<char> {
    if part.len() > 0 && part[0] == '/' {
        part
    } else if base.len() == 0 || base.last() == '/' {
        base + part
    } else {
        base + seq!['/'] + part
    }
}

/// The property-list file of LaunchAgent `label` under the home directory `home`.
pub open spec fn spec_launch_agent_plist_path(home: Seq<char>, label: Seq<char>) -> Seq<char> {
    path_join(path_join(path_join(home, "Library"@), "LaunchAgents"@), label + ".plist"@)
}

fn join_path(base: String, part: &str) -> (out: String)
    ensures
        out@ == path_join(base@, part@),
{
    let p = chars_of(part);
    if p.len() > 0 && p[0] == '/' {
        return String::from_str(part);
    }
    let b = chars_of(base.as_str());
    if b.len() == 0 || b[b.len() - 1] == '/' {
        let mut out = base;
        out.append(part);
        out
    } else {
        let mut out = base;
        out.push('/');
        out.append(part);
        out
    }
}

/// The property-list file of LaunchAgent `label` under the home directory `home`.
pub fn launch_agent_plist_path(home: &str, label: &str) -> (path: String)
    ensures
        path@ == spec_launch_agent_plist_path(home@, label@),
{
    let a = join_path(String::from_str(home), "Library");
    let b = join_path(a, "LaunchAgents");
    let mut file = String::from_str(label);
    file.append(".plist");
    join_path(b, file.as_str())
}

/// The user id that `id -u` printed: its trimmed text, or `None` when blank.
pub fn parse_current_uid(raw: &str) -> (uid: Option<String>)
    ensures
        trim(raw@).len() == 0 ==> uid is None,
        trim(raw@).len() != 0 ==> (uid matches Some(u) && u@ == trim(raw@)),
{
    let chars = chars_of(raw);
    let t = trim_chars(&chars);
    if t.len() == 0 {
        None
    } else {
        Some(string_of(&t))
    }
}

} // verus!
