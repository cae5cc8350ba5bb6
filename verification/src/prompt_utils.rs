//! Prompt sections derived from the session configuration.

use vstd::prelude::*;
use crate::session_record::SubagentRoleRecord;
use crate::str_order::sorted_strictly;
use crate::text::{decimal, has_prefix, has_suffix, join, push_decimal, push_str, str_ends_with, str_starts_with};

verus! {

/// The opening of the delegation section, before the list of roles.
pub open spec fn delegation_head() -> Seq<char> {
    "\n\n## Subagent Delegation\n\nWhen a predefined subagent role matches the user's request, delegate to it using `spawn_subagent` with `subagent_role_id`. **Workflow**: spawn \u{2192} wait \u{2192} `join_subagent` \u{2192} process results.\n\n**Available Roles**:\n"@
}

/// The closing of the delegation section, after the list of roles.
pub open spec fn delegation_tail() -> Seq<char> {
    "\n\nAlways delegate to matching roles instead of handling directly."@
}

/// The list line of one role: `- "<role_id>": <description>`.
pub open spec fn role_line(role_id: Seq<char>, description: Seq<char>) -> Seq<char> {
    "- \""@ + role_id + "\": "@ + description
}

pub open spec fn role_lines(roles: Seq<SubagentRoleRecord>) -> Seq<Seq<char>> {
    roles.map_values(|r: SubagentRoleRecord| role_line(r.role_id@, r.description@))
}

fn push_role_line(s: &mut String, role: &SubagentRoleRecord)
    ensures
        final(s)@ == old(s)@ + role_line(role.role_id@, role.description@),
{
    push_str(s, "- \"");
    push_str(s, role.role_id.as_str());
    push_str(s, "\": ");
    push_str(s, role.description.as_str());
}

/// The keys of a keyed list of roles.
pub open spec fn role_keys(roles: Seq<(String, SubagentRoleRecord)>) -> Seq<Seq<char>> {
    roles.map_values(|p: (String, SubagentRoleRecord)| p.0@)
}

/// The records of a keyed list of roles, in list order.
pub open spec fn role_records(roles: Seq<(String, SubagentRoleRecord)>) -> Seq<SubagentRoleRecord> {
    roles.map_values(|p: (String, SubagentRoleRecord)| p.1)
}

/// The delegation section for the given roles, keyed by name and listed in
/// the order of their keys (strictly increasing, as in an ordered map), or
/// `None` when there is no role.
pub fn compose_subagent_delegation_rules(subagent_roles: &[(String, SubagentRoleRecord)]) -> (r: Option<String>)
    requires
        sorted_strictly(role_keys(subagent_roles@)),
    ensures
        subagent_roles@.len() == 0 ==> r is None,
        subagent_roles@.len() > 0 ==> (r matches Some(s)
            && s@ == delegation_head() + join(role_lines(role_records(subagent_roles@)), "\n"@) + delegation_tail()),
{
    let n = subagent_roles.len();
    if n == 0 {
        return None;
    }
    let ghost records = role_records(subagent_roles@);
    let mut out = String::from_str("\n\n## Subagent Delegation\n\nWhen a predefined subagent role matches the user's request, delegate to it using `spawn_subagent` with `subagent_role_id`. **Workflow**: spawn \u{2192} wait \u{2192} `join_subagent` \u{2192} process results.\n\n**Available Roles**:\n");
    let ghost head = out@;
    push_role_line(&mut out, &subagent_roles[0].1);
    assert(role_lines(records).take(1) =~= seq![role_line(records[0].role_id@, records[0].description@)]);
    let mut i: usize = 1;
    while i < n
        invariant
            n == subagent_roles@.len(),
            records == role_records(subagent_roles@),
            1 <= i <= n,
            out@ == head + join(role_lines(records).take(i as int), "\n"@),
        decreases n - i,
    {
        let ghost lines = role_lines(records);
        assert(lines.take(i + 1).drop_last() =~= lines.take(i as int));
        push_str(&mut out, "\n");
        push_role_line(&mut out, &subagent_roles[i].1);
        assert(records[i as int] == subagent_roles@[i as int].1);
        assert(out@ =~= head + join(lines.take(i + 1), "\n"@));
        i = i + 1;
    }
    assert(role_lines(records).take(n as int) =~= role_lines(records));
    push_str(&mut out, "\n\nAlways delegate to matching roles instead of handling directly.");
    Some(out)
}

/// How a skills directory is labelled in the table.
pub enum SkillDirKind {
    Project,
    System,
    User,
    Config,
}

/// The kind of a skills directory given as text.
pub open spec fn skill_dir_kind(dir: Seq<char>) -> SkillDirKind {
    if dir == ".xiaoo/skills"@ {
        SkillDirKind::Project
    } else if dir == "/usr/lib/.xiaoo/skills"@ {
        SkillDirKind::System
    } else if has_suffix(dir, "/.xiaoo/skills"@)
        && (has_prefix(dir, "~"@) || has_prefix(dir, "/home/"@) || has_prefix(dir, "/root/"@)) {
        SkillDirKind::User
    } else {
        SkillDirKind::Config
    }
}

/// `(priority, purpose)` of a directory of kind `kind`; a configured directory
/// is numbered `ordinal`.
pub open spec fn skill_dir_labels(kind: SkillDirKind, ordinal: nat) -> (Seq<char>, Seq<char>) {
    match kind {
        SkillDirKind::Project => ("Project"@, "Project-specific skills"@),
        SkillDirKind::System => ("System"@, "Built-in skills"@),
        SkillDirKind::User => ("User"@, "Personal skills"@),
        SkillDirKind::Config => ("Config"@, "Configured skill dir "@ + decimal(ordinal)),
    }
}

/// How many of `dirs` are configured (not project, system or user) directories.
pub open spec fn config_dir_count(dirs: Seq<Seq<char>>) -> nat
    decreases dirs.len(),
{
    if dirs.len() == 0 {
        0
    } else {
        config_dir_count(dirs.drop_last()) + if skill_dir_kind(dirs.last()) is Config { 1nat } else { 0nat }
    }
}

/// The table row of `dir` where `ordinal` numbers it among configured directories.
pub open spec fn skill_dir_row(dir: Seq<char>, ordinal: nat) -> Seq<char> {
    let (priority, purpose) = skill_dir_labels(skill_dir_kind(dir), ordinal);
    "| "@ + priority + " | `"@ + dir + "` | "@ + purpose + " |"@
}

/// The rows of `dirs`, configured directories numbered from 1 in order.
pub open spec fn skill_dir_rows(dirs: Seq<Seq<char>>) -> Seq<Seq<char>>
    decreases dirs.len(),
{
    if dirs.len() == 0 {
        Seq::empty()
    } else {
        skill_dir_rows(dirs.drop_last()).push(skill_dir_row(dirs.last(), config_dir_count(dirs.drop_last()) + 1))
    }
}

pub open spec fn skills_table_head() -> Seq<char> {
    "| Priority | Directory | Purpose |\n|----------|-----------|---------|\n"@
}

pub open spec fn skills_table_empty() -> Seq<char> {
    "| Priority | Directory | Purpose |\n|----------|-----------|---------|\n| (none configured) | - | - |"@
}

/// Classify a skills directory; a configured directory advances `config_counter`
/// and is labelled with its new value.
pub fn classify_skill_dir(dir: &str, config_counter: &mut usize) -> (r: (String, String))
    requires
        *old(config_counter) < usize::MAX,
    ensures
        skill_dir_kind(dir@) is Config ==> *final(config_counter) == *old(config_counter) + 1,
        !(skill_dir_kind(dir@) is Config) ==> *final(config_counter) == *old(config_counter),
        (r.0@, r.1@) == skill_dir_labels(skill_dir_kind(dir@), *final(config_counter) as nat),
{
    proof {
        reveal_strlit(".xiaoo/skills");
        reveal_strlit("/usr/lib/.xiaoo/skills");
    }
    if crate::strmap::str_equal(dir, ".xiaoo/skills") {
        (String::from_str("Project"), String::from_str("Project-specific skills"))
    } else if crate::strmap::str_equal(dir, "/usr/lib/.xiaoo/skills") {
        (String::from_str("System"), String::from_str("Built-in skills"))
    } else if str_ends_with(dir, "/.xiaoo/skills")
        && (str_starts_with(dir, "~") || str_starts_with(dir, "/home/") || str_starts_with(dir, "/root/")) {
        (String::from_str("User"), String::from_str("Personal skills"))
    } else {
        *config_counter = *config_counter + 1;
        let mut purpose = String::from_str("Configured skill dir ");
        push_decimal(&mut purpose, *config_counter as u64);
        (String::from_str("Config"), purpose)
    }
}

fn push_table_row(table: &mut String, dir: &str, priority: &String, purpose: &String)
    ensures
        final(table)@ == old(table)@ + ("| "@ + priority@ + " | `"@ + dir@ + "` | "@ + purpose@ + " |"@),
{
    push_str(table, "| ");
    push_str(table, priority.as_str());
    push_str(table, " | `");
    push_str(table, dir);
    push_str(table, "` | ");
    push_str(table, purpose.as_str());
    push_str(table, " |");
    assert(final(table)@ =~= old(table)@ + ("| "@ + priority@ + " | `"@ + dir@ + "` | "@ + purpose@ + " |"@));
}

/// One more directory adds one row, numbered after the configured directories before it.
proof fn lemma_rows_step(dirs: Seq<Seq<char>>, i: int)
    requires
        0 <= i < dirs.len(),
    ensures
        skill_dir_rows(dirs.take(i + 1)) == skill_dir_rows(dirs.take(i)).push(
            skill_dir_row(dirs[i], config_dir_count(dirs.take(i)) + 1)),
        config_dir_count(dirs.take(i + 1)) == config_dir_count(dirs.take(i))
            + if skill_dir_kind(dirs[i]) is Config { 1nat } else { 0nat },
{
    assert(dirs.take(i + 1).drop_last() =~= dirs.take(i));
    assert(dirs.take(i + 1).last() == dirs[i]);
}

/// Joining one more line appends the separator and the line.
proof fn lemma_join_push(lines: Seq<Seq<char>>, sep: Seq<char>, line: Seq<char>)
    requires
        lines.len() > 0,
    ensures
        join(lines.push(line), sep) == join(lines, sep) + sep + line,
{
    assert(lines.push(line).drop_last() =~= lines);
}

/// A markdown table of the skills directories (given as display text), in
/// order, configured directories numbered from 1.
pub fn generate_skills_dirs_table(skills_dirs: &[String]) -> (table: String)
    requires
        skills_dirs@.len() < usize::MAX,
    ensures
        skills_dirs@.len() == 0 ==> table@ == skills_table_empty(),
        skills_dirs@.len() > 0 ==> table@ == skills_table_head()
            + join(skill_dir_rows(skills_dirs@.map_values(|d: String| d@)), "\n"@),
{
    let n = skills_dirs.len();
    if n == 0 {
        return String::from_str("| Priority | Directory | Purpose |\n|----------|-----------|---------|\n| (none configured) | - | - |");
    }
    let ghost dirs = skills_dirs@.map_values(|d: String| d@);
    let mut table = String::from_str("| Priority | Directory | Purpose |\n|----------|-----------|---------|\n");
    let ghost head = table@;
    let mut config_counter: usize = 0;
    let mut i: usize = 0;
    while i < n
        invariant
            n == skills_dirs@.len(),
            n < usize::MAX,
            dirs == skills_dirs@.map_values(|d: String| d@),
            head == skills_table_head(),
            i <= n,
            config_counter == config_dir_count(dirs.take(i as int)),
            config_counter <= i,
            i == 0 ==> table@ == head,
            i > 0 ==> table@ == head + join(skill_dir_rows(dirs.take(i as int)), "\n"@),
        decreases n - i,
    {
        let dir = skills_dirs[i].as_str();
        proof { lemma_rows_step(dirs, i as int); }
        let ghost before = table@;
        let ghost count = config_counter as nat;
        if i > 0 {
            push_str(&mut table, "\n");
        }
        let (priority, purpose) = classify_skill_dir(dir, &mut config_counter);
        assert(skill_dir_labels(skill_dir_kind(dir@), config_counter as nat) == skill_dir_labels(skill_dir_kind(dir@), count + 1));
        push_table_row(&mut table, dir, &priority, &purpose);
        proof {
            let rows = skill_dir_rows(dirs.take(i as int));
            let row = skill_dir_row(dirs[i as int], count + 1);
            if i > 0 {
                lemma_join_push(rows, "\n"@, row);
                assert(table@ =~= head + join(rows.push(row), "\n"@));
            } else {
                assert(rows.push(row) =~= seq![row]);
                assert(table@ =~= head + join(rows.push(row), "\n"@));
            }
        }
        i = i + 1;
    }
    assert(dirs.take(n as int) =~= dirs);
    table
}

} // verus!
