use liteapi::gate::{acquire_permit, can_admit, release_permit};
use liteapi::guard::should_reject;
use liteapi::respond::render_413;

#[test]
fn unlimited_ceiling_never_rejects() {
    for n in [0usize, 1, 10, 4096, usize::MAX] {
        assert!(!should_reject(n, 0));
    }
}

#[test]
fn ceiling_is_exact() {
    assert!(!should_reject(10, 10));
    assert!(should_reject(11, 10));
    assert!(should_reject(usize::MAX, 10));
    assert!(!should_reject(0, 1));
    assert!(should_reject(2, 1));
}

#[test]
fn oversize_reply_bytes() {
    let expected = format!(
        "HTTP/1.1 413 Payload Too Large\r\nContent-Length: {}\r\nContent-Type: text/plain; charset=utf-8\r\nConnection: close\r\n\r\nRequest body exceeds limit (10 bytes).",
        "Request body exceeds limit (10 bytes).".len()
    );
    assert_eq!(render_413(10), expected.into_bytes());
}

#[test]
fn oversize_reply_content_length_matches_body() {
    for max in [1usize, 10, 999, 1000000] {
        let reply = render_413(max);
        let text = String::from_utf8(reply).unwrap();
        let (head, body) = text.split_once("\r\n\r\n").unwrap();
        let declared: usize = head
            .lines()
            .find_map(|l| l.strip_prefix("Content-Length: "))
            .unwrap()
            .parse()
            .unwrap();
        assert_eq!(declared, body.len());
        assert!(body.contains(&max.to_string()));
    }
}

#[test]
fn disabled_gate_admits_everyone() {
    assert!(can_admit(0, 0));
    assert!(can_admit(1000000, 0));
    assert_eq!(acquire_permit(7, 0), 7);
    assert_eq!(release_permit(7, 0), 7);
}

#[test]
fn gate_counts_up_and_down_within_bound() {
    let max = 2usize;
    let mut active = 0usize;
    assert!(can_admit(active, max));
    active = acquire_permit(active, max);
    assert_eq!(active, 1);
    assert!(can_admit(active, max));
    active = acquire_permit(active, max);
    assert_eq!(active, 2);
    assert!(!can_admit(active, max));
    active = release_permit(active, max);
    assert_eq!(active, 1);
    assert!(can_admit(active, max));
    active = release_permit(active, max);
    assert_eq!(active, 0);
    assert_eq!(release_permit(active, max), 0);
}

#[test]
fn gate_bound_holds_over_ten_interleaved_workers() {
    // Ten workers against a bound of two, scheduled round-robin: a worker
    // waits while no slot is free, works for a few turns, then releases.
    let max = 2usize;
    let mut active = 0usize;
    let mut started = [false; 10];
    let mut left = [0u32; 10];
    let mut done = 0;
    let mut turns = 0;
    while done < 10 {
        for w in 0..10 {
            if done == 10 {
                break;
            }
            if !started[w] {
                if can_admit(active, max) {
                    active = acquire_permit(active, max);
                    started[w] = true;
                    left[w] = 3;
                }
            } else if left[w] > 0 {
                left[w] -= 1;
                if left[w] == 0 {
                    active = release_permit(active, max);
                    done += 1;
                }
            }
            assert!(active <= max);
        }
        turns += 1;
        assert!(turns < 1000, "every admitted worker must eventually finish");
    }
    assert_eq!(active, 0);
}
