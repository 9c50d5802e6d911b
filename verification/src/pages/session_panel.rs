//! Logic of the session's side panel: the snippet tree and the AI chat.
use vstd::prelude::*;
use crate::models::SnippetsConfig;
use crate::services::ai::ChatRole;
use crate::services::storage::{in_group, parent_is};
use crate::state::{SidebarPanel, expanded_contains};
use crate::text::{owned, str_eq, to_chars};

verus! {

/// The translation key of the side panel's title.
pub fn panel_title_key(panel: SidebarPanel) -> (res: &'static str)
    ensures
        res@ == match panel {
            SidebarPanel::Snippets => "mini_sidebar.snippets"@,
            SidebarPanel::Transfer => "mini_sidebar.transfer"@,
        },
{
    proof {
        reveal_strlit("mini_sidebar.snippets");
        reveal_strlit("mini_sidebar.transfer");
    }
    match panel {
        SidebarPanel::Snippets => "mini_sidebar.snippets",
        SidebarPanel::Transfer => "mini_sidebar.transfer",
    }
}

/// How a folder of the snippet tree is drawn: `(expanded, has children)`.
pub fn snippet_folder_state(config: &SnippetsConfig, group_id: &str, expanded: &Vec<String>) -> (res: (bool, bool))
    ensures
        res.0 == expanded_contains(expanded@, group_id@),
        res.1 == (config.groups@.filter(parent_is(Some(group_id@))).len() > 0
            || config.commands@.filter(in_group(Some(group_id@))).len() > 0),
{
    let mut is_expanded = false;
    let mut i: usize = 0;
    while i < expanded.len()
        invariant
            i <= expanded@.len(),
            is_expanded == exists|a: int| 0 <= a < i && (#[trigger] expanded@[a])@ == group_id@,
        decreases expanded@.len() - i,
    {
        if str_eq(expanded[i].as_str(), group_id) {
            is_expanded = true;
        }
        i = i + 1;
    }
    let groups = config.get_child_groups(Some(group_id));
    let commands = config.get_commands_in_group(Some(group_id));
    (is_expanded, groups.len() > 0 || commands.len() > 0)
}

/// While a reply is pending, a "thinking" bubble is shown unless the last message is an
/// assistant reply that already has text or reasoning.
pub fn shows_thinking(pending: bool, last: Option<(ChatRole, &str, Option<&str>)>) -> (res: bool)
    ensures
        res == (pending && match last {
            Some((role, content, reasoning)) => role == ChatRole::Assistant && content@.len() == 0
                && match reasoning {
                Some(r) => r@.len() == 0,
                None => true,
            },
            None => true,
        }),
{
    if !pending {
        return false;
    }
    match last {
        Some((role, content, reasoning)) => {
            let reasoning_empty = match reasoning {
                Some(r) => to_chars(r).len() == 0,
                None => true,
            };
            role == ChatRole::Assistant && to_chars(content).len() == 0 && reasoning_empty
        },
        None => true,
    }
}

/// Some model of `models` is `m`.
pub open spec fn lists_model(models: Seq<String>, m: Seq<char>) -> bool {
    exists|i: int| 0 <= i < models.len() && (#[trigger] models[i])@ == m
}

/// The model the chat uses: the selected one when the provider offers it; else the provider's
/// first model; else its default model when a provider is set up, or `—` when none is.
pub fn effective_model(selected: Option<&str>, models: &Vec<String>, has_provider: bool, default_model: &str) -> (res: String)
    ensures
        res@ == if selected is Some && lists_model(models@, selected->0@) {
            selected->0@
        } else if models@.len() > 0 {
            models@[0]@
        } else if has_provider {
            default_model@
        } else {
            "—"@
        },
{
    match selected {
        Some(m) => {
            let mut i: usize = 0;
            while i < models.len()
                invariant
                    i <= models@.len(),
                    selected == Some(m),
                    forall|a: int| 0 <= a < i ==> (#[trigger] models@[a])@ != m@,
                decreases models@.len() - i,
            {
                if str_eq(models[i].as_str(), m) {
                    assert(models@[i as int]@ == m@);
                    assert(lists_model(models@, m@));
                    return owned(m);
                }
                i = i + 1;
            }
        },
        None => {},
    }
    if models.len() > 0 {
        models[0].clone()
    } else if has_provider {
        owned(default_model)
    } else {
        owned("—")
    }
}

} // verus!
