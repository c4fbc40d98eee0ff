use rand::rngs::StdRng;
use rand::SeedableRng;
use rustlink::errors::LinkError;
use rustlink::link::{CreatedAt, Link, LinkId, ShortUrl, UserUrl};
use rustlink::net::IpAddress;
use rustlink::secret::LinkKey;
use rustlink::target::Url;

fn is_code(s: &str) -> bool {
    s.chars().count() == 7 && s.chars().all(|c| c.is_ascii_alphanumeric())
}

#[test]
fn generated_short_codes_are_seven_alphabet_symbols() {
    for _ in 0..200 {
        let code = ShortUrl::value().unwrap();
        assert!(is_code(code.as_str()), "{:?}", code);
    }
}

#[test]
fn seeded_short_codes_vary() {
    let mut rng = StdRng::seed_from_u64(11);
    let a = ShortUrl::random(&mut rng).into_inner();
    let b = ShortUrl::random(&mut rng).into_inner();
    assert!(is_code(&a) && is_code(&b));
    assert_ne!(a, b);
}

#[test]
fn short_code_shape_is_checked() {
    assert_eq!(ShortUrl::new("aZ09xY7".to_string()).unwrap().as_str(), "aZ09xY7");
    for bad in ["", "   ", "abc123", "abc12345", "abc-123", "abc 123", "abcé123"] {
        assert_eq!(ShortUrl::new(bad.to_string()).unwrap_err(), LinkError::InvalidFormat, "{bad}");
    }
}

#[test]
fn link_id_reads_uuid_text() {
    let id = LinkId::from_string("67e55044-10b1-426f-9247-bb680e5fe0c8".to_string()).unwrap();
    assert_eq!(id.into_inner(), 0x67e55044_10b1_426f_9247_bb680e5fe0c8);
    let simple = LinkId::from_string("67e5504410b1426f9247bb680e5fe0c8".to_string()).unwrap();
    assert_eq!(simple, id);
    assert_eq!(LinkId::from_string("not-a-uuid".to_string()), Err(LinkError::InvalidFormat));
    assert_eq!(LinkId::from_string(String::new()), Err(LinkError::InvalidFormat));
}

#[test]
fn generated_link_ids_are_version_four() {
    let mut rng = StdRng::seed_from_u64(3);
    for _ in 0..20 {
        let v = LinkId::random(&mut rng).into_inner();
        assert_eq!((v >> 76) & 0xf, 4);
        assert_eq!((v >> 62) & 0x3, 0b10);
    }
    let v = LinkId::generate().unwrap().into_inner();
    assert_eq!((v >> 76) & 0xf, 4);
    assert_ne!(LinkId::generate().unwrap(), LinkId::generate().unwrap());
}

#[test]
fn user_url_must_not_be_blank() {
    assert_eq!(UserUrl::new("  \t".to_string()), Err(LinkError::EmptyUrl));
    let u = UserUrl::new(" https://example.com ".to_string()).unwrap();
    assert_eq!(u.as_str(), " https://example.com ");
    assert_eq!(u.value(), " https://example.com ");
    assert_eq!(u.into_inner(), " https://example.com ".to_string());
    let checked = Url::new("https://example.com/x", &vec![IpAddress::V4([1, 1, 1, 1])]).unwrap();
    assert_eq!(UserUrl::from_url(&checked).as_str(), "https://example.com/x");
}

#[test]
fn created_at_keeps_its_seconds() {
    assert_eq!(CreatedAt::new(1_700_000_000).into_inner(), 1_700_000_000);
    assert!(CreatedAt::value().into_inner() > 1_600_000_000);
}

#[test]
fn link_from_stored_values() {
    let link = Link::new(7, "stored-hash".to_string(), "Abc1234".to_string(), "https://example.com".to_string(), 42).unwrap();
    assert_eq!(link.id().into_inner(), 7);
    assert_eq!(link.delete_hash_code().value(), "stored-hash");
    assert_eq!(link.short_url().as_str(), "Abc1234");
    assert_eq!(link.user_url().as_str(), "https://example.com");
    assert_eq!(link.created_at().into_inner(), 42);
}

#[test]
fn link_refuses_each_invalid_part_in_turn() {
    let bad_key = Link::new(1, String::new(), "bad".to_string(), " ".to_string(), 0);
    assert_eq!(bad_key.unwrap_err(), LinkError::InvalidFormat);
    let bad_code = Link::new(1, "h".to_string(), "bad".to_string(), " ".to_string(), 0);
    assert_eq!(bad_code.unwrap_err(), LinkError::InvalidFormat);
    let bad_url = Link::new(1, "h".to_string(), "Abc1234".to_string(), " ".to_string(), 0);
    assert_eq!(bad_url.unwrap_err(), LinkError::EmptyUrl);
}

#[test]
fn link_from_parts_keeps_them() {
    let key = LinkKey::new("h".to_string()).unwrap();
    let code = ShortUrl::new("Zz00Zz0".to_string()).unwrap();
    let url = UserUrl::new("https://example.org".to_string()).unwrap();
    let link = Link::from_parts(LinkId::new(9), key, code.clone(), url, CreatedAt::new(5));
    assert_eq!(link.short_url(), &code);
    assert_eq!(*link.id(), LinkId::new(9));
}

#[test]
fn short_code_is_trimmed() {
    assert_eq!(ShortUrl::new(" aB3dE9z ".to_string()).unwrap().into_inner(), "aB3dE9z");
    assert_eq!(ShortUrl::new("\taB3dE9z\n".to_string()).unwrap().as_str(), "aB3dE9z");
}

#[test]
fn short_code_from_draws() {
    let code = ShortUrl::from_draws(&vec![0, 25, 26, 51, 52, 61, 1]);
    assert_eq!(code.as_str(), "AZaz09B");
    let code = ShortUrl::from_draws(&vec![7, 7, 7, 60, 33, 0, 40]);
    assert_eq!(code.as_str(), "HHH8hAo");
}

#[test]
fn delete_key_is_trimmed() {
    assert_eq!(LinkKey::new("  ab12cd34 ".to_string()).unwrap().into_inner(), "ab12cd34");
    assert_eq!(LinkKey::new(" \t ".to_string()), Err(LinkError::InvalidFormat));
}

#[test]
fn link_keeps_trimmed_code_and_key() {
    let link = Link::new(1, " h ".to_string(), " Abc1234 ".to_string(), " https://e.com ".to_string(), 0).unwrap();
    assert_eq!(link.delete_hash_code().value(), "h");
    assert_eq!(link.short_url().as_str(), "Abc1234");
    assert_eq!(link.user_url().as_str(), " https://e.com ");
    let blank_key = Link::new(1, "  ".to_string(), "Abc1234".to_string(), "https://e.com".to_string(), 0);
    assert_eq!(blank_key.unwrap_err(), LinkError::InvalidFormat);
}
