//! Desktop pet ("avatar") commands: the follow-up actions of its cards and the GNOME
//! extension checks.
use vstd::prelude::*;
use crate::json::{Json, JsonV, obj_v, push_member, json_str};
use crate::text::{chars_of, lemma_trim_idempotent, push_str, str_eq, string_of, trim, trim_chars};

verus! {

/// The result of installing the GNOME avatar extension.
pub struct GnomeAvatarExtensionInstallResult {
    pub installed: bool,
    pub enabled: bool,
    pub requires_relogin: bool,
    pub extension_dir: String,
    pub message: String,
}

/// A follow-up action chosen on an avatar card.
pub struct AvatarFollowupActionInput {
    pub action: String,
    pub project_key: String,
    pub title: String,
    pub date: String,
    pub source_app: String,
    pub source_title: String,
    pub persona: String,
}

/// A remembered follow-up item.
pub struct AvatarFollowupItem {
    pub id: String,
    pub title: String,
    pub date: String,
    pub source_app: String,
    pub source_title: String,
    pub project_key: String,
    pub created_at: i64,
    pub status: String,
}

/// The follow-up actions of an avatar card.
#[derive(Debug, Clone, Copy, PartialEq, Eq, Structural)]
pub enum AvatarFollowupAction {
    Timeline,
    Focus,
    Remember,
    Snooze,
    Dismiss,
}

/// What `parse_followup_action` gives: the action named by the trimmed text, `Dismiss`
/// for anything else.
pub open spec fn followup_action_spec(action: Seq<char>) -> AvatarFollowupAction {
    let a = trim(action);
    if a == "timeline"@ {
        AvatarFollowupAction::Timeline
    } else if a == "focus"@ {
        AvatarFollowupAction::Focus
    } else if a == "remember"@ {
        AvatarFollowupAction::Remember
    } else if a == "snooze"@ {
        AvatarFollowupAction::Snooze
    } else {
        AvatarFollowupAction::Dismiss
    }
}

/// The follow-up action an input names.
pub fn parse_followup_action(action: &str) -> (r: AvatarFollowupAction)
    ensures
        r == followup_action_spec(action@),
{
    let cv = chars_of(action);
    let t = string_of(trim_chars(cv.as_slice()).as_slice());
    let a = t.as_str();
    if str_eq(a, "timeline") {
        AvatarFollowupAction::Timeline
    } else if str_eq(a, "focus") {
        AvatarFollowupAction::Focus
    } else if str_eq(a, "remember") {
        AvatarFollowupAction::Remember
    } else if str_eq(a, "snooze") {
        AvatarFollowupAction::Snooze
    } else {
        AvatarFollowupAction::Dismiss
    }
}

/// The project key of a follow-up action (trimmed), or the error for a blank key.
pub fn followup_project_key(input: &AvatarFollowupActionInput) -> (r: Result<String, String>)
    ensures
        match r {
            Ok(k) => trim(input.project_key@).len() > 0 && k@ == trim(input.project_key@),
            Err(e) => trim(input.project_key@).len() == 0 && e@
                == "缺少项目标识，无法处理桌宠待跟进动作"@,
        },
{
    let cv = chars_of(input.project_key.as_str());
    let t = trim_chars(cv.as_slice());
    if t.len() == 0 {
        return Err("缺少项目标识，无法处理桌宠待跟进动作".to_owned());
    }
    Ok(string_of(t.as_slice()))
}

/// An open follow-up of the project with this (trimmed) title is already remembered.
pub open spec fn followup_exists(items: Seq<AvatarFollowupItem>, project_key: Seq<char>, title: Seq<char>) -> bool {
    exists|i: int|
        0 <= i < items.len() && (#[trigger] items[i]).status@ == "open"@ && items[i].project_key@
            == project_key && trim(items[i].title@) == title
}

/// Only an open follow-up blocks a new one: no follow-up is remembered in an empty list; an
/// item whose status is not `open` changes nothing, whatever its project and title; an open
/// item of the project with the trimmed title blocks it; and an item of another project or
/// title changes nothing either.
pub proof fn lemma_only_open_followups_block(
    items: Seq<AvatarFollowupItem>,
    x: AvatarFollowupItem,
    project_key: Seq<char>,
    title: Seq<char>,
)
    ensures
        !followup_exists(Seq::empty(), project_key, title),
        x.status@ != "open"@ ==> (followup_exists(items.push(x), project_key, title) == followup_exists(
            items,
            project_key,
            title,
        )),
        x.project_key@ != project_key || trim(x.title@) != title ==> (followup_exists(
            items.push(x),
            project_key,
            title,
        ) == followup_exists(items, project_key, title)),
        x.status@ == "open"@ && x.project_key@ == project_key && trim(x.title@) == title ==> followup_exists(
            items.push(x),
            project_key,
            title,
        ),
{
    let ys = items.push(x);
    assert(ys[items.len() as int] == x);
    assert forall|i: int| 0 <= i < items.len() implies #[trigger] ys[i] == items[i] by {}
    if followup_exists(items, project_key, title) {
        let i = choose|i: int|
            0 <= i < items.len() && (#[trigger] items[i]).status@ == "open"@ && items[i].project_key@
                == project_key && trim(items[i].title@) == title;
        assert(ys[i] == items[i]);
    }
    if followup_exists(ys, project_key, title) {
        let i = choose|i: int|
            0 <= i < ys.len() && (#[trigger] ys[i]).status@ == "open"@ && ys[i].project_key@ == project_key
                && trim(ys[i].title@) == title;
        if i < items.len() {
            assert(items[i] == ys[i]);
        }
    }
}

/// Whether an open follow-up of the project with this title is already remembered.
pub fn has_open_followup(items: &Vec<AvatarFollowupItem>, project_key: &str, title: &str) -> (r: bool)
    ensures
        r == followup_exists(items@, project_key@, title@),
{
    let mut i: usize = 0;
    while i < items.len()
        invariant
            i <= items.len(),
            forall|j: int|
                0 <= j < i ==> !((#[trigger] items@[j]).status@ == "open"@ && items@[j].project_key@
                    == project_key@ && trim(items@[j].title@) == title@),
        decreases items.len() - i,
    {
        let it = &items[i];
        let tv = chars_of(it.title.as_str());
        let tt = string_of(trim_chars(tv.as_slice()).as_slice());
        if str_eq(it.status.as_str(), "open") && str_eq(it.project_key.as_str(), project_key) && str_eq(tt.as_str(), title) {
            assert(items@[i as int] == *it);
            return true;
        }
        i = i + 1;
    }
    false
}

/// uuid: `Uuid::new_v4().to_string()`, a random version-4 UUID in hyphenated lowercase
/// form. Its contents are random; the contract states only its shape (36 characters,
/// hyphens at 8, 13, 18 and 23, the version digit `4` at 14).
#[verifier::external_body]
fn new_uuid_v4() -> (r: String)
    ensures
        r@.len() == 36,
        r@[8] == '-' && r@[13] == '-' && r@[18] == '-' && r@[23] == '-',
        r@[14] == '4',
{
    uuid::Uuid::new_v4().to_string()
}

/// chrono: `Local::now().timestamp()`, the current Unix time in seconds. It depends on the
/// clock, so nothing is stated of it.
#[verifier::external_body]
fn now_timestamp() -> (r: i64) {
    chrono::Local::now().timestamp()
}

/// Remembers a follow-up item for the project unless an open one with the same trimmed
/// title exists; the new item gets a fresh id, the current time and status `open`, with
/// its texts trimmed. Returns whether an item was added.
pub fn remember_followup(
    items: &mut Vec<AvatarFollowupItem>,
    project_key: &str,
    input: &AvatarFollowupActionInput,
) -> (added: bool)
    ensures
        added == !followup_exists(old(items)@, project_key@, trim(input.title@)),
        !added ==> final(items)@ == old(items)@,
        added ==> final(items)@.len() == old(items)@.len() + 1 && final(items)@.take(
            old(items)@.len() as int,
        ) == old(items)@,
        added ==> ({
            let it = final(items)@.last();
            &&& it.title@ == trim(input.title@)
            &&& it.date@ == trim(input.date@)
            &&& it.source_app@ == trim(input.source_app@)
            &&& it.source_title@ == trim(input.source_title@)
            &&& it.project_key@ == project_key@
            &&& it.status@ == "open"@
            &&& it.id@.len() == 36
        }),
{
    let tv = chars_of(input.title.as_str());
    let title = string_of(trim_chars(tv.as_slice()).as_slice());
    if has_open_followup(items, project_key, title.as_str()) {
        return false;
    }
    let dv = chars_of(input.date.as_str());
    let av = chars_of(input.source_app.as_str());
    let sv = chars_of(input.source_title.as_str());
    let item = AvatarFollowupItem {
        id: new_uuid_v4(),
        title,
        date: string_of(trim_chars(dv.as_slice()).as_slice()),
        source_app: string_of(trim_chars(av.as_slice()).as_slice()),
        source_title: string_of(trim_chars(sv.as_slice()).as_slice()),
        project_key: project_key.to_owned(),
        created_at: now_timestamp(),
        status: "open".to_owned(),
    };
    let ghost before = items@;
    items.push(item);
    assert(items@.take(before.len() as int) =~= before);
    true
}

/// The UUID of the GNOME avatar extension.
pub const GNOME_AVATAR_EXTENSION_UUID: &'static str = "work-review-avatar-input@workreview.app";

/// The extension needs a new login: on GNOME it is installed and enabled, but the avatar
/// input does not come from the shell's D-Bus provider yet.
pub fn gnome_avatar_extension_needs_relogin(
    is_gnome: bool,
    installed: bool,
    enabled: bool,
    input_provider: &str,
) -> (r: bool)
    ensures
        r == (is_gnome && installed && enabled && input_provider@ != "gnome-shell-dbus"@),
{
    is_gnome && installed && enabled && !str_eq(input_provider, "gnome-shell-dbus")
}

/// What `gnome_install_message` gives.
pub open spec fn install_message_spec(requires_relogin: bool, enabled: bool, session: Seq<char>, desktop: Seq<char>) -> Seq<char> {
    if requires_relogin {
        "GNOME 桌宠扩展已启用，但当前 GNOME Shell 还未加载最新扩展。请重新登录后再试。"@
    } else if enabled {
        "GNOME 桌宠扩展已安装并启用（"@ + session + " / "@ + desktop + "）"@
    } else {
        "GNOME 桌宠扩展文件已写入，请确认系统已安装 gnome-extensions 并手动启用扩展"@
    }
}

/// The message shown after installing the GNOME avatar extension.
pub fn gnome_install_message(requires_relogin: bool, enabled: bool, session: &str, desktop: &str) -> (r: String)
    ensures
        r@ == install_message_spec(requires_relogin, enabled, session@, desktop@),
{
    if requires_relogin {
        "GNOME 桌宠扩展已启用，但当前 GNOME Shell 还未加载最新扩展。请重新登录后再试。".to_owned()
    } else if enabled {
        let mut out = String::new();
        push_str(&mut out, "GNOME 桌宠扩展已安装并启用（");
        push_str(&mut out, session);
        push_str(&mut out, " / ");
        push_str(&mut out, desktop);
        push_str(&mut out, "）");
        out
    } else {
        "GNOME 桌宠扩展文件已写入，请确认系统已安装 gnome-extensions 并手动启用扩展".to_owned()
    }
}

/// Some line of `text` (lines separated by `'\n'`), trimmed, is exactly `name`.
pub open spec fn lists_line(text: Seq<char>, name: Seq<char>) -> bool {
    exists|i: int, j: int|
        0 <= i <= j <= text.len() && (i == 0 || text[i - 1] == '\n') && (j == text.len()
            || text[j] == '\n') && (forall|k: int| i <= k < j ==> text[k] != '\n') && #[trigger] trim(
            text.subrange(i, j),
        ) == name
}

/// Whether the output of `gnome-extensions list --enabled` lists the avatar extension.
pub fn lists_avatar_extension(output: &str) -> (r: bool)
    ensures
        r == lists_line(output@, GNOME_AVATAR_EXTENSION_UUID@),
{
    let cv = chars_of(output);
    let mut start: usize = 0;
    loop
        invariant
            start <= cv.len(),
            cv@ == output@,
            start == 0 || cv@[start - 1] == '\n',
            forall|i: int, j: int|
                0 <= i <= j <= cv@.len() && i < start && (i == 0 || cv@[i - 1] == '\n') && (j
                    == cv@.len() || cv@[j] == '\n') && (forall|k: int| i <= k < j ==> cv@[k] != '\n')
                    ==> #[trigger] trim(cv@.subrange(i, j)) != GNOME_AVATAR_EXTENSION_UUID@,
        decreases cv.len() - start,
    {
        let mut end = start;
        while end < cv.len() && cv[end] != '\n'
            invariant
                start <= end <= cv.len(),
                forall|k: int| start <= k < end ==> cv@[k] != '\n',
            decreases cv.len() - end,
        {
            end = end + 1;
        }
        let mut line: Vec<char> = Vec::new();
        let mut k = start;
        while k < end
            invariant
                start <= k <= end <= cv.len(),
                line@ == cv@.subrange(start as int, k as int),
            decreases end - k,
        {
            line.push(cv[k]);
            k = k + 1;
            assert(line@ =~= cv@.subrange(start as int, k as int));
        }
        let t = string_of(trim_chars(line.as_slice()).as_slice());
        if str_eq(t.as_str(), GNOME_AVATAR_EXTENSION_UUID) {
            assert(trim(cv@.subrange(start as int, end as int)) == GNOME_AVATAR_EXTENSION_UUID@);
            assert(start == 0 || output@[start - 1] == '\n');
            assert(end == output@.len() || output@[end as int] == '\n');
            assert(forall|k: int| start <= k < end ==> output@[k] != '\n');
            assert(trim(output@.subrange(start as int, end as int)) == GNOME_AVATAR_EXTENSION_UUID@);
            assert(lists_line(output@, GNOME_AVATAR_EXTENSION_UUID@));
            return true;
        }
        proof {
            assert forall|i: int, j: int|
                0 <= i <= j <= cv@.len() && i < end + 1 && (i == 0 || cv@[i - 1] == '\n') && (j
                    == cv@.len() || cv@[j] == '\n') && (forall|k: int| i <= k < j ==> cv@[k] != '\n')
                    implies #[trigger] trim(cv@.subrange(i, j)) != GNOME_AVATAR_EXTENSION_UUID@ by {
                if i == start {
                    if j > end {
                        assert(cv@[end as int] == '\n');
                    } else if j < end {
                        assert(cv@[j] != '\n');
                    }
                } else if i > start && i <= end {
                    assert(cv@[i - 1] != '\n');
                }
            }
        }
        if end == cv.len() {
            assert(!lists_line(output@, GNOME_AVATAR_EXTENSION_UUID@));
            return false;
        }
        start = end + 1;
    }
}


/// A follow-up remembered for a project is found by the next check with the same title,
/// so remembering the same card twice adds it once.
pub proof fn lemma_remembered_followup_is_found(
    items: Seq<AvatarFollowupItem>,
    item: AvatarFollowupItem,
    project_key: Seq<char>,
    title: Seq<char>,
)
    requires
        item.status@ == "open"@,
        item.project_key@ == project_key,
        item.title@ == trim(title),
    ensures
        followup_exists(items.push(item), project_key, trim(title)),
{
    lemma_trim_idempotent(title);
    assert(items.push(item)[items.len() as int] == item);
}

/// The answer to a follow-up action: `ok`, the action as given, and the project key.
pub open spec fn followup_reply_spec(action: Seq<char>, project_key: Seq<char>) -> JsonV {
    JsonV::Object(
        seq![("ok"@, JsonV::Bool(true)), ("action"@, JsonV::Str(action)), ("projectKey"@, JsonV::Str(project_key))],
    )
}

/// The answer to a follow-up action (see `followup_reply_spec`).
pub fn followup_reply(action: &str, project_key: &str) -> (r: Json)
    ensures
        r@ == followup_reply_spec(action@, project_key@),
{
    let mut m: Vec<(String, Json)> = Vec::new();
    push_member(&mut m, "ok", Json::Bool(true));
    push_member(&mut m, "action", json_str(action));
    push_member(&mut m, "projectKey", json_str(project_key));
    assert(obj_v(m@) =~= followup_reply_spec(action@, project_key@)->Object_0);
    Json::Object(m)
}

} // verus!
