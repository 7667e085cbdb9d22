use cli_downloader::commands::{cancel_download, pause_download, pause_wait_millis, register_download, resume_download};
use cli_downloader::state::DownloadRegistry;

fn pause(id: &str, reg: &DownloadRegistry) -> Result<(), String> {
    let (flag, value) = pause_download(id.to_string(), reg)?;
    flag.send(value).map_err(|e| e.to_string())
}

fn resume(id: &str, reg: &DownloadRegistry) -> Result<(), String> {
    let (flag, value) = resume_download(id.to_string(), reg)?;
    flag.send(value).map_err(|e| e.to_string())
}

fn cancel(id: &str, reg: &mut DownloadRegistry) -> Result<(), String> {
    let token = cancel_download(id.to_string(), reg)?;
    token.cancel();
    Ok(())
}

#[test]
fn unknown_download_is_not_found() {
    let mut reg = DownloadRegistry::new();
    assert_eq!(pause_download("nope".to_string(), &reg).err(), Some("Download not found".to_string()));
    assert_eq!(resume_download("nope".to_string(), &reg).err(), Some("Download not found".to_string()));
    assert_eq!(cancel_download("nope".to_string(), &mut reg).err(), Some("Download not found".to_string()));
}

#[test]
fn pause_and_resume_name_the_flag_and_value() {
    let mut reg = DownloadRegistry::new();
    let (_token, rx) = register_download(&mut reg, "d1".to_string());
    assert!(!*rx.borrow());
    let (_, v) = pause_download("d1".to_string(), &reg).unwrap();
    assert!(v);
    let (_, v) = resume_download("d1".to_string(), &reg).unwrap();
    assert!(!v);
    assert_eq!(pause("d1", &reg), Ok(()));
    assert!(*rx.borrow());
    assert_eq!(resume("d1", &reg), Ok(()));
    assert!(!*rx.borrow());
    assert_eq!(resume("d1", &reg), Ok(()));
    assert!(!*rx.borrow());
    assert!(reg.contains("d1"));
}

#[test]
fn pause_without_listener_reports_closed_channel() {
    let mut reg = DownloadRegistry::new();
    let (_token, rx) = register_download(&mut reg, "d1".to_string());
    drop(rx);
    assert_eq!(pause("d1", &reg), Err("channel closed".to_string()));
}

#[test]
fn cancel_stops_and_forgets() {
    let mut reg = DownloadRegistry::new();
    let (token, _rx) = register_download(&mut reg, "d1".to_string());
    let (other, _rx2) = register_download(&mut reg, "d2".to_string());
    assert!(!token.is_cancelled());
    assert_eq!(cancel("d1", &mut reg), Ok(()));
    assert!(token.is_cancelled());
    assert!(!other.is_cancelled());
    assert!(!reg.contains("d1"));
    assert!(reg.contains("d2"));
    assert_eq!(cancel("d1", &mut reg), Err("Download not found".to_string()));
    assert_eq!(pause("d1", &reg), Err("Download not found".to_string()));
}

#[test]
fn cancel_hands_back_the_download_token() {
    let mut reg = DownloadRegistry::new();
    let (token, _rx) = register_download(&mut reg, "d".to_string());
    let handed = cancel_download("d".to_string(), &mut reg).unwrap();
    assert!(!token.is_cancelled());
    handed.cancel();
    assert!(token.is_cancelled());
}

#[test]
fn registering_again_replaces_controls() {
    let mut reg = DownloadRegistry::new();
    let (first, _rx1) = register_download(&mut reg, "same".to_string());
    let (second, _rx2) = register_download(&mut reg, "same".to_string());
    assert_eq!(cancel("same", &mut reg), Ok(()));
    assert!(second.is_cancelled());
    assert!(!first.is_cancelled());
    assert!(!reg.contains("same"));
}

#[test]
fn registry_get_and_remove() {
    let mut reg = DownloadRegistry::new();
    assert!(reg.get("a").is_none());
    let _ = register_download(&mut reg, "a".to_string());
    assert!(reg.get("a").is_some());
    assert!(reg.remove("a").is_some());
    assert!(reg.remove("a").is_none());
}

#[test]
fn returned_token_is_the_registered_one() {
    let mut reg = DownloadRegistry::new();
    let (token, _rx) = register_download(&mut reg, "d".to_string());
    reg.get("d").unwrap().cancel_token.cancel();
    assert!(token.is_cancelled());
}

#[test]
fn pause_wait() {
    assert_eq!(pause_wait_millis(true), 200);
    assert_eq!(pause_wait_millis(false), 0);
}
