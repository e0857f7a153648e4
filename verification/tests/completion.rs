use wring::complete::{Complete, CompleteState, Cqe, PollStep};
use wring::driver::Driver;
use wring::error::completion_result;
use wring::Error;

#[test]
fn negative_result_is_os_error() {
    assert_eq!(completion_result(-2), Err(Error::Os(2)));
    assert_eq!(completion_result(-4095), Err(Error::Os(4095)));
}

#[test]
fn non_negative_result_is_value() {
    assert_eq!(completion_result(0), Ok(0));
    assert_eq!(completion_result(4096), Ok(4096));
}

#[test]
fn first_poll_asks_for_submission() {
    let mut driver = Driver::new();
    let mut req = Complete::new();
    assert_eq!(req.current_state(), CompleteState::Unsubmitted);
    let step = req.poll(&mut driver);
    let token = match step {
        PollStep::Submit(t) => t,
        other => panic!("unexpected {:?}", other),
    };
    assert_ne!(token, 0);
    assert_eq!(req.current_state(), CompleteState::Waiting(token));
    assert_eq!(req.poll(&mut driver), PollStep::Pending);
}

#[test]
fn request_gets_its_completion() {
    let mut driver = Driver::new();
    let mut a = Complete::new();
    let mut b = Complete::new();
    let ta = match a.poll(&mut driver) {
        PollStep::Submit(t) => t,
        other => panic!("unexpected {:?}", other),
    };
    let tb = match b.poll(&mut driver) {
        PollStep::Submit(t) => t,
        other => panic!("unexpected {:?}", other),
    };
    assert_ne!(ta, tb);
    let cqes = vec![
        Cqe { user_data: tb, result: -9 },
        Cqe { user_data: 0, result: 7 },
        Cqe { user_data: ta, result: 512 },
    ];
    assert_eq!(driver.enter(true, &cqes), Ok(()));
    assert_eq!(a.poll(&mut driver), PollStep::Ready(Ok(512)));
    assert_eq!(b.poll(&mut driver), PollStep::Ready(Err(Error::Os(9))));
    assert_eq!(a.current_state(), CompleteState::Finished);
    assert_eq!(a.poll(&mut driver), PollStep::Pending);
}

#[test]
fn last_completion_for_a_token_wins() {
    let mut driver = Driver::new();
    let t = driver.register_request();
    let cqes = vec![Cqe { user_data: t, result: 1 }, Cqe { user_data: t, result: 2 }];
    assert_eq!(driver.enter(true, &cqes), Ok(()));
    assert_eq!(driver.take_completion(t), Some(Ok(2)));
    assert_eq!(driver.take_completion(t), None);
}

#[test]
fn failed_wait_delivers_nothing() {
    let mut driver = Driver::new();
    let t = driver.register_request();
    let cqes = vec![Cqe { user_data: t, result: 3 }];
    assert_eq!(driver.enter(false, &cqes), Err(Error::SubmitErr));
    assert_eq!(driver.take_completion(t), None);
    assert_eq!(driver.enter(true, &cqes), Ok(()));
    assert_eq!(driver.take_completion(t), Some(Ok(3)));
}

#[test]
fn token_zero_and_unknown_tokens_are_ignored() {
    let mut driver = Driver::new();
    let t = driver.register_request();
    let cqes = vec![Cqe { user_data: 0, result: 1 }, Cqe { user_data: t + 100, result: 1 }];
    assert_eq!(driver.enter(true, &cqes), Ok(()));
    assert_eq!(driver.take_completion(t), None);
    assert_eq!(driver.take_completion(0), None);
}

#[test]
fn tokens_are_reused_only_after_take() {
    let mut driver = Driver::new();
    let t1 = driver.register_request();
    let t2 = driver.register_request();
    assert_ne!(t1, t2);
    assert_eq!(driver.enter(true, &vec![Cqe { user_data: t1, result: 0 }]), Ok(()));
    assert_eq!(driver.take_completion(t1), Some(Ok(0)));
    let t3 = driver.register_request();
    assert_ne!(t3, 0);
    assert_ne!(t3, t2);
}

#[test]
fn buffers_register_once() {
    let mut driver = Driver::new();
    assert_eq!(driver.register_buffers(), Ok(()));
    assert_eq!(driver.register_buffers(), Err(Error::BufferRegistered));
    driver.unregister_buffers();
    assert_eq!(driver.register_buffers(), Ok(()));
}

#[test]
fn error_messages() {
    assert_eq!(Error::SqFull.message(), Some("uring squeue full"));
    assert_eq!(Error::SubmitErr.message(), Some("uring submit error"));
    assert_eq!(Error::AlreadyExists.message(), Some("uring already exists"));
    assert_eq!(Error::NotInitialized.message(), Some("uring not initialized"));
    assert_eq!(Error::BufferRegistered.message(), Some("uring buffer already registered"));
    assert_eq!(Error::AlreadyStarted.message(), Some("uring already started"));
    assert_eq!(Error::NoUring.message(), Some("no uring"));
    assert_eq!(Error::Os(2).message(), None);
    assert_eq!(Error::InteriorNul(3).message(), None);
}

#[test]
fn abandoned_token_is_not_reused_before_its_completion() {
    let mut driver = Driver::new();
    let mut req = Complete::new();
    let t = match req.poll(&mut driver) {
        PollStep::Submit(t) => t,
        other => panic!("unexpected {:?}", other),
    };
    req.cancel(&mut driver);
    assert_eq!(req.current_state(), CompleteState::Finished);
    let other = driver.register_request();
    assert_ne!(other, t);
    // The late completion frees the token and reaches no request.
    assert_eq!(driver.enter(true, &vec![Cqe { user_data: t, result: 5 }]), Ok(()));
    assert_eq!(driver.take_completion(t), None);
    assert_eq!(driver.take_completion(other), None);
    // Now the token can be handed out again.
    let reused = driver.register_request();
    assert_eq!(reused, t);
}

#[test]
fn abandoning_an_arrived_result_frees_the_token() {
    let mut driver = Driver::new();
    let t = driver.register_request();
    assert_eq!(driver.enter(true, &vec![Cqe { user_data: t, result: 1 }]), Ok(()));
    driver.abandon(t);
    assert_eq!(driver.take_completion(t), None);
    assert_eq!(driver.register_request(), t);
}

#[test]
fn repeated_polls_submit_once() {
    let mut driver = Driver::new();
    let mut req = Complete::new();
    let mut submits = 0;
    for _ in 0..5 {
        if let PollStep::Submit(_) = req.poll(&mut driver) {
            submits += 1;
        }
    }
    assert_eq!(submits, 1);
    let t = match req.current_state() {
        CompleteState::Waiting(t) => t,
        other => panic!("unexpected {:?}", other),
    };
    assert!(driver.in_flight(t));
    assert_eq!(driver.enter(true, &vec![Cqe { user_data: t, result: 0 }]), Ok(()));
    assert_eq!(req.poll(&mut driver), PollStep::Ready(Ok(0)));
    assert!(!driver.in_flight(t));
    for _ in 0..3 {
        assert_eq!(req.poll(&mut driver), PollStep::Pending);
    }
}

#[test]
fn min_code_is_ignored_where_no_request_waits() {
    let mut driver = Driver::new();
    let t = driver.register_request();
    let cqes = vec![
        Cqe { user_data: 0, result: i32::MIN },
        Cqe { user_data: t + 1, result: i32::MIN },
    ];
    assert!(!driver.in_flight(0));
    assert!(!driver.in_flight(t + 1));
    assert_eq!(driver.enter(true, &cqes), Ok(()));
    assert_eq!(driver.take_completion(t), None);
    assert!(driver.in_flight(t));
}
