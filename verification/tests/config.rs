use netdout::api::CreateDownload;
use netdout::cli::{queued_notice, Cli, Command};
use netdout::config::AppConfig;
use netdout::models::DownloadRequest;

#[test]
fn default_configuration() {
    let config = AppConfig::default();
    assert_eq!(config.api_bind_addr, "127.0.0.1:8472");
    assert_eq!(config.database_path, "netdout.db");
    assert_eq!(config.worker_threads, 8);
    assert_eq!(config.chunk_size, 2 * 1024 * 1024);
    assert_eq!(config.clone(), config);
}

#[test]
fn request_of_a_body() {
    let body = CreateDownload { url: "http://host/a".to_string(), output: "/tmp/a".to_string() };
    assert_eq!(
        body.clone().into_request(),
        DownloadRequest { url: "http://host/a".to_string(), output: "/tmp/a".to_string() }
    );
}

#[test]
fn notice_of_a_queued_job() {
    assert_eq!(queued_notice("abc"), "Queued download: abc");
}

#[test]
fn commands_are_copied_whole() {
    let cli = Cli {
        command: Command::Download { url: "u".to_string(), output: "o".to_string() },
    };
    assert_eq!(cli.clone(), cli);
    assert_eq!(Command::Daemon.clone(), Command::Daemon);
    let status = Command::Status { id: "x".to_string() };
    assert_eq!(status.clone(), status);
}
