use zanop::fs::Vfs;
use zanop::shell::{cmd_app_list, cmd_chd, cmd_con, cmd_cre, cmd_info, execute, parse_command};

fn strings(v: &[&str]) -> Vec<String> {
    v.iter().map(|s| s.to_string()).collect()
}

#[test]
fn parses_command_and_argument() {
    assert_eq!(parse_command("  cre   file  notes.txt "), ("cre".to_string(), "file  notes.txt".to_string()));
    assert_eq!(parse_command("con"), ("con".to_string(), String::new()));
    assert_eq!(parse_command("   "), (String::new(), String::new()));
}

#[test]
fn cre_command_messages() {
    let mut vfs = Vfs::new();
    assert_eq!(cmd_cre(&mut vfs, "file notes.txt"), strings(&["Created file 'notes.txt'."]));
    assert_eq!(cmd_cre(&mut vfs, "dir d"), strings(&["Created dir 'd'."]));
    assert_eq!(cmd_cre(&mut vfs, "folder e"), strings(&["Created folder 'e'."]));
    assert_eq!(cmd_cre(&mut vfs, "file notes.txt"), strings(&["'notes.txt' already exists."]));
    assert_eq!(cmd_cre(&mut vfs, "thing x"), strings(&["Usage: cre file <name>  |  cre folder <name>"]));
    assert_eq!(cmd_cre(&mut vfs, "file"), strings(&["Usage: cre file <name>  |  cre folder <name>"]));
    assert_eq!(cmd_con(&mut vfs, ""), strings(&["notes.txt", "d", "e"]));
}

#[test]
fn chd_command_messages() {
    let mut vfs = Vfs::new();
    cmd_cre(&mut vfs, "file f");
    cmd_cre(&mut vfs, "folder d");
    assert_eq!(cmd_chd(&mut vfs, ""), strings(&["Usage: chd <folder>"]));
    assert_eq!(cmd_chd(&mut vfs, "x"), strings(&["No such folder: x"]));
    assert_eq!(cmd_chd(&mut vfs, "f"), strings(&["Not a folder: f"]));
    assert!(cmd_chd(&mut vfs, "d").is_empty());
    assert_eq!(vfs.cwd_path(), "/d");
}

#[test]
fn con_and_info_messages() {
    let mut vfs = Vfs::new();
    cmd_cre(&mut vfs, "file f");
    vfs.write_file("f", "one\ntwo").unwrap();
    assert_eq!(cmd_con(&mut vfs, "f"), strings(&["one", "two"]));
    assert_eq!(cmd_con(&mut vfs, "g"), strings(&["No such file or folder: g"]));
    assert_eq!(cmd_info(&mut vfs, "f"), strings(&["f: file (7 bytes)"]));
    assert_eq!(cmd_info(&mut vfs, "g"), strings(&["No such file or folder: g"]));
    assert_eq!(cmd_info(&mut vfs, ""), strings(&["Usage: info <name>"]));
}

#[test]
fn app_listing() {
    assert_eq!(
        cmd_app_list(),
        strings(&[
            "Built-in apps:",
            "  - Calculator",
            "  - Notes",
            "  - Clock",
            "  - Snake",
            "Run one with: app <name>",
        ])
    );
}

#[test]
fn executes_lines() {
    let mut vfs = Vfs::new();
    let r = execute(&mut vfs, "cre folder docs");
    assert_eq!(r.lines, strings(&["Created folder 'docs'."]));
    assert!(r.launch.is_none());
    let r = execute(&mut vfs, "chd docs");
    assert!(r.lines.is_empty());
    assert_eq!(vfs.cwd_path(), "/docs");
    let r = execute(&mut vfs, "app Snake");
    assert_eq!(r.launch, Some("Snake".to_string()));
    assert!(r.lines.is_empty());
    let r = execute(&mut vfs, "app");
    assert_eq!(r.lines.len(), 6);
    let r = execute(&mut vfs, "ls -l");
    assert_eq!(r.lines, strings(&["Unknown command: 'ls'. Try chd, cre, con, info, app."]));
    let r = execute(&mut vfs, "");
    assert!(r.lines.is_empty());
    assert!(r.launch.is_none());
}
