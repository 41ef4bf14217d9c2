use build_proxy::command::{
    child_command, child_command_with, split_args, starts_uppercase, ArgSplit, ChildBuildError,
    ChildCommand,
};

fn strings(texts: &[&str]) -> Vec<String> {
    texts.iter().map(|text| text.to_string()).collect()
}

fn command(program: &str, args: &[&str], envs: &[(&str, &str)]) -> ChildCommand<&'static str> {
    ChildCommand {
        program: program.to_string(),
        args: strings(args),
        envs: envs
            .iter()
            .map(|(name, value)| (name.to_string(), value.to_string()))
            .collect(),
        current_dir: "/p",
    }
}

#[test]
fn arguments_split_at_the_first_separator() {
    let args = strings(&["build-proxy", "--port", "8080", "--", "go", "run", "--", "x"]);
    assert_eq!(split_args(&args), ArgSplit { own: 3, command: 4 });
    assert_eq!(split_args(&strings(&["p", "--"])), ArgSplit { own: 1, command: 2 });
    assert_eq!(split_args(&strings(&["p", "---"])), ArgSplit { own: 2, command: 2 });
    assert_eq!(split_args(&strings(&[])), ArgSplit { own: 0, command: 0 });
}

#[test]
fn the_program_and_its_arguments_follow() {
    let args = strings(&["go", "run", "./cmd/web/main.go"]);
    assert_eq!(
        child_command(&args, 4321, "/p"),
        Ok(command("go", &["run", "./cmd/web/main.go"], &[("PORT", "4321")]))
    );
}

#[test]
fn the_command_runs_in_the_given_directory() {
    let args = strings(&["go", "run", "./cmd/web/main.go"]);
    let built = child_command(&args, 4321, "/path/to/project").unwrap();
    assert_eq!(built.current_dir, "/path/to/project");
    assert_eq!(built.program, "go");
    assert_eq!(built.envs.len(), 1);
}

#[test]
fn of_two_assignments_the_last_comes_last() {
    let built = child_command(&strings(&["A=1", "B=2", "A=3", "go"]), 4321, "/p").unwrap();
    let value = |name: &str| built.envs.iter().rev().find(|env| env.0 == name).map(|env| env.1.as_str());
    assert_eq!(value("A"), Some("3"));
    assert_eq!(value("B"), Some("2"));
    assert_eq!(value("C"), None);
}

#[test]
fn leading_assignments_set_variables() {
    let args = strings(&["RUST_LOG=debug", "Path=a=b", "EMPTY=", "cargo", "run", "X=1"]);
    assert_eq!(
        child_command(&args, 5000, "/p"),
        Ok(command(
            "cargo",
            &["run", "X=1"],
            &[("RUST_LOG", "debug"), ("Path", "a=b"), ("EMPTY", ""), ("PORT", "5000")]
        ))
    );
}

#[test]
fn what_is_no_assignment_is_the_program() {
    for program in ["path=x", "=x", "PATH", "_A=b", "1A=b", "", "é=x"] {
        let args = strings(&["A=b", program, "C=d"]);
        assert_eq!(
            child_command(&args, 4000, "/p"),
            Ok(command(program, &["C=d"], &[("A", "b"), ("PORT", "4000")])),
            "{program:?}"
        );
    }
}

#[test]
fn uppercase_is_unicode_uppercase() {
    assert!(starts_uppercase("A"));
    assert!(starts_uppercase("Éa"));
    assert!(!starts_uppercase("aA"));
    assert!(!starts_uppercase("é"));
    assert!(!starts_uppercase("_A"));
    assert!(!starts_uppercase(""));
    assert_eq!(
        child_command(&strings(&["Éa=1", "go"]), 4000, "/p"),
        Ok(command("go", &[], &[("Éa", "1"), ("PORT", "4000")]))
    );
}

#[test]
fn a_missing_command_is_an_error() {
    assert_eq!(child_command(&strings(&[]), 4000, "/p"), Err(ChildBuildError));
    assert_eq!(child_command(&strings(&["A=b", "C=d"]), 4000, "/p"), Err(ChildBuildError));
}

#[test]
fn the_port_overrides_an_assigned_one() {
    let built = child_command(&strings(&["PORT=1", "go"]), 4321, "/p").unwrap();
    assert_eq!(
        built.envs,
        vec![
            ("PORT".to_string(), "1".to_string()),
            ("PORT".to_string(), "4321".to_string())
        ]
    );
    let last = built.envs.iter().rev().find(|(name, _)| name == "PORT").unwrap();
    assert_eq!(last.1, "4321");
}

#[test]
fn given_arguments_are_all_kept() {
    let args = strings(&["A=b", "C=", "go", "run", "--x=y", ""]);
    let built = child_command(&args, 4000, "/p").unwrap();
    let mut written: Vec<String> = built.envs[..built.envs.len() - 1]
        .iter()
        .map(|(name, value)| format!("{name}={value}"))
        .collect();
    written.push(built.program);
    written.extend(built.args);
    assert_eq!(written, args);
}

#[test]
fn uppercase_can_be_told() {
    let args = strings(&["a=b", "C=d", "x"]);
    assert_eq!(
        child_command_with(&args, &vec![true, false, false], 7, "/p"),
        Ok(command("C=d", &["x"], &[("a", "b"), ("PORT", "7")]))
    );
    assert_eq!(
        child_command_with(&strings(&["a=b"]), &vec![true], 7, "/p"),
        Err(ChildBuildError)
    );
}
