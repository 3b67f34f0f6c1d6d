use ssh_router::sync::{compare_chunks, length_verdict, ChunkVerdict};

#[test]
fn chunk_comparison() {
    assert!(matches!(compare_chunks(b"same cli bytes", b"same cli bytes"), ChunkVerdict::More));
    assert!(matches!(compare_chunks(b"", b""), ChunkVerdict::Same));
    assert!(matches!(compare_chunks(b"new cli bytes", b"old cli bytes"), ChunkVerdict::Differ));
    assert!(matches!(compare_chunks(b"abc", b"ab"), ChunkVerdict::Differ));
    assert!(matches!(compare_chunks(b"", b"x"), ChunkVerdict::Differ));
}

#[test]
fn length_checks() {
    assert_eq!(length_verdict(23, 7), Some(false));
    assert_eq!(length_verdict(7, 23), Some(false));
    assert_eq!(length_verdict(7, 7), None);
}
