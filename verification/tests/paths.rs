use std::path::PathBuf;
use std::str::FromStr;

use dirtyqueue::decimal::to_decimal;
use dirtyqueue::hash_filename;
use dirtyqueue::path::join;
use dirtyqueue::DIRECTORY_HASH_LEVELS;

#[test]
fn test_hash_filename() {
    const LONG_PATH: &str = "/complicated/deep/path/like/seriously/bro/its/looooooooooooooooooong/";

    let roots = vec!["/", LONG_PATH];
    let usizes = vec![0, 8675309, usize::MAX];

    let biggest = &usize::MAX.to_string()[0..2];

    let results = vec![
        vec![
            "/00/0".to_string(),
            "/86/8675309".to_string(),
            format!("/{}/", biggest) + &usize::MAX.to_string(),
        ],
        vec![
            LONG_PATH.to_string() + "00/0",
            LONG_PATH.to_string() + "86/8675309",
            LONG_PATH.to_string() + &format!("{}/", biggest) + &usize::MAX.to_string(),
        ],
    ];

    for (u, size) in usizes.iter().enumerate() {
        for (r, root) in roots.iter().enumerate() {
            assert_eq!(
                PathBuf::from_str(&results[r][u]).unwrap(),
                PathBuf::from_str(&hash_filename(root, *size, DIRECTORY_HASH_LEVELS)).unwrap()
            );
            assert_eq!(results[r][u], hash_filename(root, *size, DIRECTORY_HASH_LEVELS));
        }
    }
}

#[test]
fn one_digit_gets_a_leading_zero() {
    assert_eq!(hash_filename("/q", 7, 1), "/q/07/7");
    assert_eq!(hash_filename("/q", 42, 1), "/q/42/42");
    assert_eq!(hash_filename("/q", 425, 1), "/q/42/425");
}

#[test]
fn levels_follow_the_pairs_of_digits() {
    assert_eq!(hash_filename("/q", 8675309, 0), "/q/8675309");
    assert_eq!(hash_filename("/q", 8675309, 2), "/q/86/75/8675309");
    assert_eq!(hash_filename("/q", 8675309, 4), "/q/86/75/30/09/8675309");
    assert_eq!(hash_filename("/q", 8675309, 6), "/q/86/75/30/09/00/00/8675309");
    assert_eq!(hash_filename("/q", 0, 3), "/q/00/00/00/0");
}

#[test]
fn roots_need_no_trailing_separator() {
    assert_eq!(hash_filename("", 12, 1), "12/12");
    assert_eq!(hash_filename("q", 12, 1), "q/12/12");
    assert_eq!(hash_filename("q/", 12, 1), "q/12/12");
    assert_eq!(join("", "hint"), "hint");
    assert_eq!(join("/", "hint"), "/hint");
    assert_eq!(join("a", "hint"), "a/hint");
}

#[test]
fn joining_agrees_with_std() {
    for root in ["/", "", "a", "a/", "/a/b", "./", "\u{e4}/\u{fc}"] {
        for key in [0, 9, 10, 99, 100, 12345, usize::MAX] {
            let s = key.to_string();
            let dir = if s.len() < 2 { format!("0{}", s) } else { s[0..2].to_string() };
            let expected = PathBuf::from_str(root).unwrap().join(dir).join(&s);
            assert_eq!(expected.to_str().unwrap(), hash_filename(root, key, 1));
        }
    }
}

#[test]
fn numbers_are_written_in_decimal() {
    for n in [0, 1, 9, 10, 11, 99, 100, 101, 8675309, usize::MAX - 1, usize::MAX] {
        assert_eq!(to_decimal(n), n.to_string());
    }
}

#[test]
fn numbers_do_not_share_a_file() {
    let mut seen: Vec<String> = Vec::new();
    for levels in [0, 1, 2] {
        seen.clear();
        for key in 0..1200 {
            seen.push(hash_filename("/q", key, levels));
        }
        seen.sort();
        seen.dedup();
        assert_eq!(seen.len(), 1200);
    }
}

#[test]
fn files_lie_beneath_the_root_and_are_no_directories() {
    for key in [0, 5, 50, 5050] {
        let path = hash_filename("/q/r", key, 2);
        assert!(path.starts_with("/q/r/"));
        let below = &path["/q/r/".len()..];
        let parts: Vec<&str> = below.split('/').collect();
        assert_eq!(parts.len(), 3);
        assert_eq!(parts[0].len(), 2);
        assert_eq!(parts[1].len(), 2);
        assert_eq!(parts[2], key.to_string());
    }
}
