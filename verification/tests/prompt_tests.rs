use std::collections::BTreeMap;
use xiaoo_shared::prompt_utils::{classify_skill_dir, compose_subagent_delegation_rules, generate_skills_dirs_table};
use xiaoo_shared::session_record::SubagentRoleRecord;

fn create_test_role(id: &str, desc: &str) -> SubagentRoleRecord {
    SubagentRoleRecord {
        role_id: id.to_string(),
        description: desc.to_string(),
        prompt: None,
        max_turns: None,
        tools: BTreeMap::new(),
    }
}

/// The roles of an ordered map, in key order.
fn keyed(roles: BTreeMap<String, SubagentRoleRecord>) -> Vec<(String, SubagentRoleRecord)> {
    roles.into_iter().collect()
}

#[test]
fn test_empty_roles_returns_none() {
    let roles = keyed(BTreeMap::new());
    let result = compose_subagent_delegation_rules(&roles);
    assert!(result.is_none());
}

#[test]
fn test_single_role_formats_correctly() {
    let mut roles = BTreeMap::new();
    roles.insert("code_reviewer".to_string(), create_test_role("code_reviewer", "Reviews code quality"));
    let roles = keyed(roles);

    let result = compose_subagent_delegation_rules(&roles);
    assert!(result.is_some());

    let rules = result.unwrap();
    assert!(rules.contains("## Subagent Delegation"));
    assert!(rules.contains("- \"code_reviewer\": Reviews code quality"));
    assert!(rules.contains("spawn_subagent"));
    assert!(rules.contains("join_subagent"));
}

#[test]
fn test_multiple_roles_format_list() {
    let mut roles = BTreeMap::new();
    roles.insert("auditor".to_string(), create_test_role("auditor", "Code auditor"));
    roles.insert("tester".to_string(), create_test_role("tester", "Test writer"));
    let roles = keyed(roles);

    let result = compose_subagent_delegation_rules(&roles);
    let rules = result.unwrap();

    assert!(rules.contains("- \"auditor\": Code auditor"));
    assert!(rules.contains("- \"tester\": Test writer"));
}

#[test]
fn test_rules_content_structure() {
    let mut roles = BTreeMap::new();
    roles.insert("agent1".to_string(), create_test_role("agent1", "desc1"));
    let roles = keyed(roles);

    let rules = compose_subagent_delegation_rules(&roles).unwrap();

    assert!(rules.contains("## Subagent Delegation"));
    assert!(rules.contains("spawn_subagent"));
    assert!(rules.contains("join_subagent"));
    assert!(rules.contains("**Available Roles**"));
}

#[test]
fn test_generate_skills_dirs_table_empty() {
    let dirs: Vec<String> = Vec::new();
    let table = generate_skills_dirs_table(&dirs);
    assert!(table.contains("(none configured)"));
}

#[test]
fn test_generate_skills_dirs_table_default_four_levels() {
    let dirs = vec![
        ".xiaoo/skills".to_string(),
        "/home/user/.xiaoo/skills".to_string(),
        "/usr/lib/.xiaoo/skills".to_string(),
    ];
    let table = generate_skills_dirs_table(&dirs);
    assert!(table.contains("Project"));
    assert!(table.contains("User"));
    assert!(table.contains("System"));
    assert!(table.contains(".xiaoo/skills"));
    assert!(table.contains("/home/user/.xiaoo/skills"));
    assert!(table.contains("/usr/lib/.xiaoo/skills"));
}

#[test]
fn test_generate_skills_dirs_table_with_config_dirs() {
    let dirs = vec![
        ".xiaoo/skills".to_string(),
        "/opt/custom/skills".to_string(),
        "/etc/xiaoo/skills".to_string(),
        "/home/user/.xiaoo/skills".to_string(),
        "/usr/lib/.xiaoo/skills".to_string(),
    ];
    let table = generate_skills_dirs_table(&dirs);
    assert!(table.contains("Config"));
    assert!(table.contains("Configured skill dir 1"));
    assert!(table.contains("Configured skill dir 2"));
    assert!(table.contains("/opt/custom/skills"));
    assert!(table.contains("/etc/xiaoo/skills"));
    assert!(table.contains("User"));
    assert!(table.contains("/home/user/.xiaoo/skills"));
}

#[test]
fn test_classify_skill_dir_user_variations() {
    let mut counter = 0;

    assert_eq!(
        classify_skill_dir("~/.xiaoo/skills", &mut counter),
        ("User".to_string(), "Personal skills".to_string())
    );

    assert_eq!(
        classify_skill_dir("/home/test/.xiaoo/skills", &mut counter),
        ("User".to_string(), "Personal skills".to_string())
    );

    assert_eq!(
        classify_skill_dir("/root/.xiaoo/skills", &mut counter),
        ("User".to_string(), "Personal skills".to_string())
    );
}

#[test]
fn roles_are_listed_in_key_order() {
    let mut roles = BTreeMap::new();
    roles.insert("zeta".to_string(), create_test_role("zeta", "last"));
    roles.insert("alpha".to_string(), create_test_role("alpha", "first"));
    let rules = compose_subagent_delegation_rules(&keyed(roles)).unwrap();
    let first = rules.find("- \"alpha\": first").unwrap();
    let last = rules.find("- \"zeta\": last").unwrap();
    assert!(first < last);
    assert!(rules.contains("- \"alpha\": first\n- \"zeta\": last\n\nAlways delegate"));
}
