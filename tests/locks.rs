use simd_kernel::primitives::SpinLock;
use simd_kernel::ticket_lock::{Ticket, TicketLock};

#[test]
fn spin_lock_try_lock_succeeds_once() {
    let l = SpinLock::new();
    assert!(l.try_lock());
    for _ in 0..8 {
        assert!(!l.try_lock());
    }
    l.unlock();
    assert!(l.try_lock());
    assert!(!l.try_lock());
    l.unlock();
}

#[test]
fn tickets_are_drawn_in_order() {
    let l = TicketLock::new(7u32);
    for i in 0..10u32 {
        assert_eq!(l.draw_ticket().number(), i);
    }
}

#[test]
fn admission_follows_ticket_order() {
    let l = TicketLock::new(String::from("payload"));
    let mut tickets: Vec<Ticket<'_, String>> = (0..5).map(|_| l.draw_ticket()).collect();
    let numbers: Vec<u32> = tickets.iter().map(|t| t.number()).collect();
    assert_eq!(numbers, vec![0, 1, 2, 3, 4]);
    for served in 0..5u32 {
        let mut waiting = Vec::new();
        let mut admitted = None;
        for t in tickets.drain(..) {
            match t.try_admit() {
                Ok(g) => {
                    assert!(admitted.is_none());
                    admitted = Some(g);
                }
                Err(back) => waiting.push(back),
            }
        }
        // Only the ticket now being served is admitted; the others come back.
        let g = admitted.expect("served ticket is admitted");
        assert_eq!(g.ticket(), served);
        assert_eq!(g.get(), "payload");
        assert_eq!(waiting.len(), (4 - served) as usize);
        drop(g);
        tickets = waiting;
    }
    assert!(l.draw_ticket().try_admit().is_ok());
}

fn early_exit(t: Ticket<'_, u32>, bail: bool) -> u32 {
    let g = match t.try_admit() {
        Ok(g) => g,
        Err(_) => return 0,
    };
    if bail {
        return 1;
    }
    *g.get()
}

#[test]
fn guard_releases_once_on_every_exit_path() {
    let l = TicketLock::new(42u32);
    let a = l.draw_ticket();
    let b = l.draw_ticket();
    let c = l.draw_ticket();
    assert_eq!(early_exit(a, true), 1);
    // Exactly one release: b is served, c is not.
    let c = match c.try_admit() {
        Ok(_) => panic!("ticket 2 admitted while ticket 1 waits"),
        Err(back) => back,
    };
    assert_eq!(early_exit(b, false), 42);
    assert!(c.try_admit().is_ok());
}
