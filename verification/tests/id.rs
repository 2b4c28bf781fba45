use rustube::error::Error;
use rustube::id::{Id, IdBuf};

const ID: &str = "5jlI4uzZGjU";

#[test]
fn from_raw_accepts_every_shape() {
    let raws = [
        "https://www.youtube.com/watch?v=5jlI4uzZGjU&ab_channel=PitbullVEVO",
        "https://youtube.com/watch?v=5jlI4uzZGjU",
        "youtube.com/watch?v=5jlI4uzZGjU",
        "http://www.youtube.de/watch?v=5jlI4uzZGjU",
        "https://youtube.com/embed/5jlI4uzZGjU",
        "https://www.youtube.com/embed/5jlI4uzZGjU?start=10",
        "https://youtu.be/5jlI4uzZGjU",
        "https://youtube.com/shorts/5jlI4uzZGjU",
        "https://www.youtube.com/shorts/5jlI4uzZGjU?feature=share",
        "youtube.com/shorts/5jlI4uzZGjU",
        "youtu.be/5jlI4uzZGjU",
        "5jlI4uzZGjU",
    ];
    for raw in raws {
        let id = Id::from_raw(raw).unwrap();
        assert_eq!(id.as_str(), ID, "{}", raw);
        assert!(id.is_borrowed());
    }
}

#[test]
fn from_raw_rejects_other_text() {
    for raw in [
        "",
        "5jlI4uzZGj",
        "5jlI4uzZGjU1",
        "https://youtube.com/watch?v=5jlI4uzZGj",
        "https://vimeo.com/watch?v=5jlI4uzZGjU",
        "https://youtu.be/5jlI4uzZGjU?t=1",
        "https://youtube.com/shorts/5jlI4uzZGjU&t=1",
        "5jlI4uzZG U",
    ] {
        assert!(matches!(Id::from_raw(raw), Err(Error::BadIdFormat)), "{}", raw);
    }
}

#[test]
fn urls_round_trip() {
    let id = Id::from_str(ID).unwrap();
    assert_eq!(id.watch_url(), "https://youtube.com/watch?v=5jlI4uzZGjU");
    assert_eq!(id.embed_url(), "https://youtube.com/embed/5jlI4uzZGjU");
    assert_eq!(id.share_url(), "https://youtu.be/5jlI4uzZGjU");
    for url in [id.watch_url(), id.embed_url(), id.share_url()] {
        assert_eq!(Id::from_raw(&url).unwrap().as_str(), ID);
    }
}

#[test]
fn ownership() {
    let id = Id::from_str(ID).unwrap();
    assert!(id.is_borrowed() && !id.is_owned());
    let owned: IdBuf = id.as_owned();
    assert!(owned.is_owned());
    assert_eq!(owned.as_str(), ID);
    let mut id2 = Id::from_raw(ID).unwrap();
    assert!(id2.make_owned().is_owned());
    assert!(id2.is_owned());
    assert_eq!(id2.into_owned().as_str(), ID);
    assert_eq!(IdBuf::from_string(String::from("nope")).unwrap_err(), "nope");
    assert_eq!(IdBuf::from_string(String::from(ID)).unwrap().as_str(), ID);
}

#[test]
fn ids_compare_as_their_texts() {
    let a = Id::from_str("AAAAAAAAAAA").unwrap();
    let b = Id::from_str("AAAAAAAAAAB").unwrap();
    assert!(a < b);
    assert!(b > a);
    assert_eq!(a.partial_cmp(&b), Some(core::cmp::Ordering::Less));
    assert_eq!(b.partial_cmp(&a), Some(core::cmp::Ordering::Greater));
    assert!(a == Id::from_raw("https://youtu.be/AAAAAAAAAAA").unwrap());
    assert!(a == a.as_owned());
    assert!(a != b);
}

#[test]
fn ids_are_url_safe() {
    let id = Id::from_str("a-b_C9d-E_f").unwrap();
    assert!(id.as_str().chars().all(|c| c.is_ascii_alphanumeric() || c == '-' || c == '_'));
    let url = format!("https://youtube.com/watch?v={}", id.as_str());
    assert_eq!(url::Url::parse(&url).unwrap().as_str(), url);
}
