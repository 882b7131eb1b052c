use remote_python::digest::{hash_bytes, hash_chunks, ContentHasher};

const EMPTY: &str = "p//G+L8e12ZRwUdWoGHWYvWA/03kO0n6gtgKS4D4Q0o=";
const HELLO_WORLD: &str = "ZEvMflZDcwQJmarInnYi88px+6HZcv2Uoxw7+/JOOTg=";
const ABC: &str = "Ophdp0/iJbIEXBcta9OQvYVfCG4+nVJbRr/iRRFDFTI=";
const SCRIPT: &str = "0NdAJ3P2ywEAn5s8iI/yPwtjQjcmnbv0WgGScHHwbVs=";

#[test]
fn empty_content_has_the_known_digest() {
    let hasher = ContentHasher::new();
    assert_eq!(hasher.finish(), EMPTY);
    assert_eq!(hash_bytes(b""), EMPTY);
    assert_eq!(hash_chunks(&vec![]), EMPTY);
    assert_eq!(hash_chunks(&vec![vec![], vec![]]), EMPTY);
}

#[test]
fn known_contents_have_their_sha3_256_in_base64() {
    assert_eq!(hash_bytes(b"abc"), ABC);
    assert_eq!(hash_bytes(b"hello world"), HELLO_WORLD);
    assert_eq!(hash_bytes(b"print('hi')\n"), SCRIPT);
}

#[test]
fn a_digest_is_44_characters_of_base64() {
    let digest = hash_bytes(b"abc");
    assert_eq!(digest.len(), 44);
    assert!(digest.ends_with('='));
    assert_ne!(digest.as_bytes(), b"abc");
}

#[test]
fn chunk_boundaries_do_not_change_the_digest() {
    let mut whole = ContentHasher::new();
    whole.update(b"hello world");
    let mut pieces = ContentHasher::new();
    pieces.update(b"hello");
    pieces.update(b" ");
    pieces.update(b"");
    pieces.update(b"world");
    assert_eq!(whole.finish(), HELLO_WORLD);
    assert_eq!(pieces.finish(), HELLO_WORLD);
}

#[test]
fn every_cut_of_a_content_gives_the_same_digest() {
    let content = b"hello world";
    for at in 0..=content.len() {
        let chunks = vec![content[..at].to_vec(), content[at..].to_vec()];
        assert_eq!(hash_chunks(&chunks), HELLO_WORLD);
    }
}

#[test]
fn hashing_twice_gives_the_same_digest() {
    let content: Vec<u8> = (0..10_000u32).map(|i| (i % 251) as u8).collect();
    let first = hash_bytes(&content);
    let second = hash_bytes(&content);
    assert_eq!(first, second);
    let in_blocks: Vec<Vec<u8>> = content.chunks(4096).map(|c| c.to_vec()).collect();
    assert_eq!(in_blocks.len(), 3);
    assert_eq!(hash_chunks(&in_blocks), first);
    let in_bytes: Vec<Vec<u8>> = content.iter().map(|b| vec![*b]).collect();
    assert_eq!(hash_chunks(&in_bytes), first);
}

#[test]
fn content_that_fills_whole_blocks_of_the_sponge() {
    // 136 bytes fill the rate of SHA3-256 exactly.
    let block = vec![0x61u8; 136];
    let whole = hash_bytes(&block);
    let halves = hash_chunks(&vec![block[..68].to_vec(), block[68..].to_vec()]);
    assert_eq!(whole, halves);
    assert_ne!(whole, hash_bytes(&block[..135]));
}

#[test]
fn different_contents_have_different_digests() {
    assert_ne!(hash_bytes(b"abc"), hash_bytes(b"abd"));
    assert_ne!(hash_bytes(b"abc"), hash_bytes(b"ab"));
    assert_ne!(hash_bytes(b""), hash_bytes(b"\0"));
}

#[test]
fn the_order_of_the_chunks_matters() {
    let forward = hash_chunks(&vec![b"ab".to_vec(), b"cd".to_vec()]);
    let backward = hash_chunks(&vec![b"cd".to_vec(), b"ab".to_vec()]);
    assert_eq!(forward, hash_bytes(b"abcd"));
    assert_eq!(backward, hash_bytes(b"cdab"));
    assert_ne!(forward, backward);
}
