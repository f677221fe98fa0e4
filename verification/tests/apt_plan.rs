//! Source-list fragments, key coupling and the package commands.

use compute::actions::apt::{
    ensure_repository, join_space, repository_key_path, repository_list_path,
    repository_source_line, update_packages_command,
};
use compute::config::apt::{main_component, AptRepository};

fn docker_repo() -> AptRepository {
    AptRepository {
        name: "docker".to_string(),
        url: "https://download.docker.com/linux/ubuntu".to_string(),
        distro: "focal".to_string(),
        key_url: "https://download.docker.com/linux/ubuntu/gpg".to_string(),
        components: vec!["stable".to_string(), "edge".to_string()],
    }
}

#[test]
fn source_line_is_exact() {
    assert_eq!(
        repository_source_line(&docker_repo()),
        "deb [signed-by=/usr/share/keyrings/docker.gpg] https://download.docker.com/linux/ubuntu focal stable edge\n"
    );
}

#[test]
fn default_component_is_main() {
    let mut repo = docker_repo();
    repo.components = main_component();
    assert_eq!(
        repository_source_line(&repo),
        "deb [signed-by=/usr/share/keyrings/docker.gpg] https://download.docker.com/linux/ubuntu focal main\n"
    );
}

#[test]
fn joining_components() {
    assert_eq!(join_space(&Vec::new()), "");
    assert_eq!(join_space(&vec!["main".to_string()]), "main");
    assert_eq!(join_space(&vec!["a".to_string(), "b".to_string(), "c".to_string()]), "a b c");
}

#[test]
fn fragment_and_key_paths_follow_the_name() {
    assert_eq!(repository_list_path("docker"), "/etc/apt/sources.list.d/docker.list");
    assert_eq!(repository_key_path("docker"), "/usr/share/keyrings/docker.gpg");
}

#[test]
fn repository_plan_couples_key_to_fragment() {
    let plan = ensure_repository(&docker_repo());
    assert_eq!(plan.list_path, "/etc/apt/sources.list.d/docker.list");
    assert_eq!(
        plan.list_content,
        "deb [signed-by=/usr/share/keyrings/docker.gpg] https://download.docker.com/linux/ubuntu focal stable edge\n"
    );
    assert_eq!(plan.key_path, "/usr/share/keyrings/docker.gpg");
    assert_eq!(plan.key_url, "https://download.docker.com/linux/ubuntu/gpg");
}

#[test]
fn index_refresh_command() {
    let update = update_packages_command();
    assert_eq!(update.name, "apt-get");
    assert_eq!(update.args, vec!["update".to_string()]);
    assert!(update.privileged);
    assert!(!update.inherit_output);
}
