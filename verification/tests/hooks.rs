use commitchi::hooks::{install_hook_contents, managed_block, upsert_managed_block};
use commitchi::pet::PetScope;

const HOOK_BEGIN: &str = "# commitchi hook begin";

#[test]
fn creates_new_hook_with_managed_block() {
    let contents = install_hook_contents(None, &managed_block(PetScope::Both));

    assert!(contents.starts_with("#!/bin/sh"));
    assert!(contents.contains("commitchi hook post-commit --scope both"));
}

#[test]
fn appends_to_existing_hook() {
    let contents = install_hook_contents(
        Some("#!/bin/sh\necho existing\n"),
        &managed_block(PetScope::Repo),
    );

    assert!(contents.contains("echo existing"));
    assert!(contents.contains("commitchi hook post-commit --scope repo"));
}

#[test]
fn replaces_existing_managed_block() {
    let existing = install_hook_contents(None, &managed_block(PetScope::Repo));
    let contents = install_hook_contents(Some(&existing), &managed_block(PetScope::Global));

    assert!(!contents.contains("--scope repo"));
    assert!(contents.contains("--scope global"));
    assert_eq!(contents.matches(HOOK_BEGIN).count(), 1);
}

#[test]
fn managed_block_text_is_exact() {
    assert_eq!(
        managed_block(PetScope::Global),
        "# commitchi hook begin\nif command -v commitchi >/dev/null 2>&1; then\n  commitchi hook post-commit --scope global\nfi\n# commitchi hook end\n"
    );
}

#[test]
fn new_hook_is_a_shell_script_holding_the_block() {
    let block = managed_block(PetScope::Repo);
    let contents = install_hook_contents(None, &block);
    assert_eq!(contents, format!("#!/bin/sh\n\n{block}"));
    assert_eq!(install_hook_contents(Some(""), &block), contents);
}

#[test]
fn appending_adds_a_missing_line_break() {
    let block = managed_block(PetScope::Repo);
    assert_eq!(
        upsert_managed_block("#!/bin/sh\necho hi", &block),
        format!("#!/bin/sh\necho hi\n\n{block}")
    );
    assert_eq!(
        upsert_managed_block("#!/bin/sh\necho hi\n", &block),
        format!("#!/bin/sh\necho hi\n\n{block}")
    );
}

#[test]
fn content_around_the_block_is_kept() {
    let old = managed_block(PetScope::Repo);
    let new = managed_block(PetScope::Both);
    let existing = format!("#!/bin/sh\necho before\n{old}echo after\n");
    assert_eq!(
        install_hook_contents(Some(&existing), &new),
        format!("#!/bin/sh\necho before\n{new}echo after\n")
    );
}

#[test]
fn installing_twice_changes_nothing() {
    let block = managed_block(PetScope::Both);
    let once = install_hook_contents(Some("#!/bin/sh\necho hi\n"), &block);
    let twice = install_hook_contents(Some(&once), &block);
    assert_eq!(once, twice);
}

#[test]
fn unterminated_block_gets_a_new_block_appended() {
    let block = managed_block(PetScope::Repo);
    let existing = "#!/bin/sh\n# commitchi hook begin\necho half\n";
    assert_eq!(
        upsert_managed_block(existing, &block),
        format!("{existing}\n{block}")
    );
}
