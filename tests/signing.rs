use base64::Engine;
use media_scan::scan::Media;
use media_scan::signing::SigningService;
use media_scan::time::Timestamp;
use media_scan::wire::SignedMedia;
use rsa::pkcs1::EncodeRsaPrivateKey;

fn key_der() -> Vec<u8> {
    let key = rsa::RsaPrivateKey::new(&mut rand::thread_rng(), 1024).unwrap();
    key.to_pkcs1_der().unwrap().as_bytes().to_vec()
}

#[test]
fn sign_then_verify_ascii_and_unicode() {
    let service = SigningService::new(key_der()).unwrap();
    for p in ["/media/a.jpg", "/médias/été/ü.png", "", "/a b/c?d=e&f"] {
        let t = service.sign_string(p).unwrap();
        assert!(service.verify_string(p, &t));
        assert!(base64::prelude::BASE64_STANDARD.decode(&t).is_ok());
        assert_ne!(t, p);
    }
}

#[test]
fn signatures_are_salted_and_both_verify() {
    let service = SigningService::new(key_der()).unwrap();
    let a = service.sign_string("/x.mp4").unwrap();
    let b = service.sign_string("/x.mp4").unwrap();
    assert_ne!(a, b);
    assert!(service.verify_string("/x.mp4", &a));
    assert!(service.verify_string("/x.mp4", &b));
}

#[test]
fn token_length_follows_modulus() {
    let service = SigningService::new(key_der()).unwrap();
    let t = service.sign_string("/x.mp4").unwrap();
    assert_eq!(t.len(), 172);
    assert!(t.ends_with('='));
    assert_eq!(base64::prelude::BASE64_STANDARD.decode(&t).unwrap().len(), 128);
}

#[test]
fn flipped_bit_is_refused() {
    let service = SigningService::new(key_der()).unwrap();
    let t = service.sign_string("/x.mp4").unwrap();
    let bytes = base64::prelude::BASE64_STANDARD.decode(&t).unwrap();
    for i in [0usize, 7, bytes.len() * 4, bytes.len() * 8 - 1] {
        let mut tampered = bytes.clone();
        tampered[i / 8] ^= 1 << (i % 8);
        let t2 = base64::prelude::BASE64_STANDARD.encode(&tampered);
        assert!(!service.verify_string("/x.mp4", &t2));
    }
}

#[test]
fn other_path_is_refused() {
    let service = SigningService::new(key_der()).unwrap();
    let t = service.sign_string("/x.mp4").unwrap();
    assert!(!service.verify_string("/y.mp4", &t));
    assert!(!service.verify_string("/x.mp4 ", &t));
    assert!(!service.verify_string("/X.mp4", &t));
}

#[test]
fn other_key_is_refused() {
    let one = SigningService::new(key_der()).unwrap();
    let two = SigningService::new(key_der()).unwrap();
    let t = one.sign_string("/x.mp4").unwrap();
    assert!(!two.verify_string("/x.mp4", &t));
}

#[test]
fn malformed_tokens_are_refused() {
    let service = SigningService::new(key_der()).unwrap();
    assert!(!service.verify_string("/x.mp4", ""));
    assert!(!service.verify_string("/x.mp4", "not base64!"));
    assert!(!service.verify_string("/x.mp4", "QUJD"));
    assert!(!service.verify_string("/x.mp4", "QUI"));
}

#[test]
fn garbage_key_is_refused() {
    assert!(SigningService::new(vec![]).is_none());
    assert!(SigningService::new(vec![1, 2, 3, 4]).is_none());
}

#[test]
fn signed_media_round_trip_and_json() {
    let service = SigningService::new(key_der()).unwrap();
    let m = Media {
        path: "/p/\"q\".jpg".to_string(),
        time_modified: Timestamp { secs: 1, nanos: 0 },
        location_name: "P".to_string(),
    };
    let sm = SignedMedia::sign(&service, &m).unwrap();
    assert_eq!(sm.path, m.path);
    assert!(sm.is_authorized(&service));
    let json = sm.to_json();
    assert_eq!(json, format!("{{\"path\":\"/p/\\\"q\\\".jpg\",\"signature\":\"{}\"}}", sm.signature));
    let forged = SignedMedia { path: "/etc/passwd".to_string(), signature: sm.signature.clone() };
    assert!(!forged.is_authorized(&service));
}

#[test]
fn json_escapes_control_characters() {
    let sm = SignedMedia { path: "a\\b\tc\u{1}d\u{1f}e\u{7f}é".to_string(), signature: "s".to_string() };
    assert_eq!(sm.to_json(), "{\"path\":\"a\\\\b\\tc\\u0001d\\u001fe\u{7f}é\",\"signature\":\"s\"}");
}
