use monazite::download::{DownloadError, DownloadRegistry, DownloadState, WorkerDirective};

// A virtual transfer: the "files" are byte vectors, the worker loop is
// driven step by step exactly as the process-side worker would drive it,
// reporting each outcome to the registry.
struct VirtualTransfer {
    source: Vec<u8>,
    dest: Vec<u8>,
    offset: usize,
}

const CHUNK: usize = 64 * 1024;

impl VirtualTransfer {
    fn new(source: Vec<u8>) -> VirtualTransfer {
        VirtualTransfer { source, dest: Vec::new(), offset: 0 }
    }

    // One worker check point: observe the directive, then cancel, hold
    // the pause, or copy one chunk. Reports true while the transfer is
    // still running.
    fn step(&mut self, reg: &mut DownloadRegistry, id: monazite::download::DownloadId) -> bool {
        let total = Some(self.source.len() as u64);
        match reg.worker_directive(id) {
            WorkerDirective::Cancel => {
                reg.worker_cancel(id, self.dest.len() as u64);
                false
            }
            WorkerDirective::Pause => {
                reg.worker_paused(id, self.dest.len() as u64, total);
                true
            }
            WorkerDirective::Proceed => {
                let remaining = self.source.len() - self.offset;
                if remaining == 0 {
                    reg.worker_complete(id, self.dest.len() as u64, total);
                    return false;
                }
                let n = remaining.min(CHUNK);
                self.dest
                    .extend_from_slice(&self.source[self.offset..self.offset + n]);
                self.offset += n;
                reg.worker_progress(id, self.dest.len() as u64, total);
                true
            }
        }
    }
}

fn pattern_bytes(len: usize) -> Vec<u8> {
    let mut out = Vec::with_capacity(len);
    for i in 0..len {
        out.push((i % 256) as u8);
    }
    out
}

#[test]
fn unsupported_http_scheme() {
    let mut reg = DownloadRegistry::new();
    let err = reg
        .start("http://example.com/a.bin", "x.bin", "/sandbox/Downloads", "/sandbox/Downloads")
        .unwrap_err();
    assert!(err.message().contains("unsupported scheme"));
    // no record was created
    assert_eq!(reg.count(), 0);
}

#[test]
fn start_queues_a_fresh_transfer() {
    let mut reg = DownloadRegistry::new();
    let id = reg
        .start("file:///src/big.bin", "big.bin", "/sandbox/Downloads", "/sandbox/Downloads")
        .unwrap();
    assert!(matches!(reg.status(id), Some(DownloadState::Queued)));
    let id2 = reg
        .start("file:///src/other.bin", "other.bin", "/sandbox/Downloads", "/sandbox/Downloads")
        .unwrap();
    assert_ne!(id, id2);
    assert!(matches!(reg.status(id2), Some(DownloadState::Queued)));
}

#[test]
fn sandbox_rejects_parent_outside_root() {
    let mut reg = DownloadRegistry::new();
    let err = reg
        .start("file:///src/a.bin", "escape.bin", "/sandbox/Downloads", "/tmp/elsewhere")
        .unwrap_err();
    assert_eq!(err, DownloadError::SandboxViolation);
    assert!(err.message().contains("outside download sandbox"));
    assert_eq!(reg.count(), 0);
}

#[test]
fn destination_needs_a_file_name() {
    let mut reg = DownloadRegistry::new();
    let err = reg
        .start("file:///src/a.bin", "..", "/sandbox/Downloads", "/sandbox/Downloads")
        .unwrap_err();
    assert_eq!(err, DownloadError::InvalidDestination);
    let err = reg
        .start("file://", "a.bin", "/sandbox/Downloads", "/sandbox/Downloads")
        .unwrap_err();
    assert_eq!(err, DownloadError::InvalidLocator);
}

#[test]
fn pause_resume_cancel_unknown_id_fails() {
    let mut reg = DownloadRegistry::new();
    let id = reg
        .start("file:///src/a.bin", "a.bin", "/sandbox/Downloads", "/sandbox/Downloads")
        .unwrap();
    assert!(reg.pause(id).is_ok());
    assert!(reg.resume(id).is_ok());
    assert!(reg.cancel(id).is_ok());
    // an identifier never issued
    let mut other = DownloadRegistry::new();
    let ghost_id = other
        .start("file:///src/b.bin", "b.bin", "/sandbox/Downloads", "/sandbox/Downloads")
        .unwrap();
    let _ = other
        .start("file:///src/c.bin", "c.bin", "/sandbox/Downloads", "/sandbox/Downloads")
        .unwrap();
    let empty = DownloadRegistry::new();
    assert!(empty.status(ghost_id).is_none());
    let mut empty = DownloadRegistry::new();
    assert_eq!(empty.pause(ghost_id).unwrap_err(), DownloadError::UnknownId);
    assert_eq!(empty.resume(ghost_id).unwrap_err(), DownloadError::UnknownId);
    assert_eq!(empty.cancel(ghost_id).unwrap_err(), DownloadError::UnknownId);
}

#[test]
fn paused_transfer_holds_then_completes() {
    // a 2 MiB repeating-pattern source, paused mid-way, resumed, and
    // driven to completion; the destination must match byte for byte
    let source = pattern_bytes(2 * 1024 * 1024);
    let mut reg = DownloadRegistry::new();
    let id = reg
        .start("file:///src/big.bin", "big.bin", "/sandbox/Downloads", "/sandbox/Downloads")
        .unwrap();
    let mut vt = VirtualTransfer::new(source.clone());
    reg.worker_begin(id);
    assert!(matches!(reg.status(id), Some(DownloadState::Running { .. })));

    // copy a few chunks, then ask for a pause
    for _ in 0..5 {
        assert!(vt.step(&mut reg, id));
    }
    reg.pause(id).unwrap();
    // pausing twice has the same observable effect as once
    reg.pause(id).unwrap();
    assert!(vt.step(&mut reg, id));
    let paused_bytes = match reg.status(id) {
        Some(DownloadState::Paused { downloaded, .. }) => downloaded,
        other => panic!("expected paused, got {:?}", other),
    };
    // further worker check points without a resume keep the same count
    for _ in 0..3 {
        assert!(vt.step(&mut reg, id));
        match reg.status(id) {
            Some(DownloadState::Paused { downloaded, .. }) => {
                assert_eq!(downloaded, paused_bytes)
            }
            other => panic!("still paused expected, got {:?}", other),
        }
    }

    reg.resume(id).unwrap();
    // resuming twice has the same observable effect as once
    reg.resume(id).unwrap();
    let mut steps = 0;
    while vt.step(&mut reg, id) {
        steps += 1;
        assert!(steps < 10_000, "timeout");
    }
    assert!(matches!(reg.status(id), Some(DownloadState::Completed)));
    assert_eq!(vt.dest.len(), source.len());
    assert_eq!(vt.dest, source);
}

#[test]
fn cancel_stops_the_worker() {
    let source = pattern_bytes(512 * 1024);
    let mut reg = DownloadRegistry::new();
    let id = reg
        .start("file:///src/c.bin", "c.bin", "/sandbox/Downloads", "/sandbox/Downloads")
        .unwrap();
    let mut vt = VirtualTransfer::new(source);
    reg.worker_begin(id);
    assert!(vt.step(&mut reg, id));
    reg.cancel(id).unwrap();
    assert!(!vt.step(&mut reg, id));
    assert!(matches!(reg.status(id), Some(DownloadState::Canceled)));
}

#[test]
fn read_error_becomes_failed() {
    let mut reg = DownloadRegistry::new();
    let id = reg
        .start("file:///src/d.bin", "d.bin", "/sandbox/Downloads", "/sandbox/Downloads")
        .unwrap();
    reg.worker_begin(id);
    reg.worker_fail(id, "read error".to_string());
    match reg.status(id) {
        Some(DownloadState::Failed(reason)) => assert_eq!(reason, "read error"),
        other => panic!("expected failed, got {:?}", other),
    }
}

#[test]
fn locator_helpers_split_exactly() {
    assert_eq!(monazite::download::parse_scheme("https://x/y"), Some("https"));
    assert_eq!(monazite::download::parse_scheme("no-scheme"), Some("no-scheme"));
    assert_eq!(
        monazite::download::file_path_from_url("file:///a/b").unwrap(),
        "/a/b".to_string()
    );
    assert_eq!(
        monazite::download::file_path_from_url("ftp://x").unwrap_err(),
        DownloadError::UnsupportedScheme
    );
}

#[test]
fn resolve_destination_keeps_only_the_file_name() {
    let full = monazite::download::resolve_destination(
        "/sandbox",
        "/sandbox/sub",
        "ignored/dir/name.bin",
    )
    .unwrap();
    assert_eq!(full, "/sandbox/sub/name.bin");
    assert_eq!(monazite::download::dest_parent_dir("a/b/c.bin"), "a/b");
    assert_eq!(monazite::download::dest_parent_dir("c.bin"), "");
    assert_eq!(monazite::download::dest_file_name("a/b/c.bin").unwrap(), "c.bin");
    assert!(monazite::download::dest_file_name("a/b/").is_none());
}
