use loaned_message::Endpoint;
use loaned_message::MiddlewareError;
use loaned_message::ReadOnlyLoanedMessage;

fn assert_send<T: Send>() {}
fn assert_sync<T: Sync>() {}

#[test]
fn traits() {
    assert_send::<ReadOnlyLoanedMessage<Vec<u8>>>();
    assert_sync::<ReadOnlyLoanedMessage<Vec<u8>>>();
}

#[test]
fn fresh_endpoint_has_no_loans() {
    let endpoint = Endpoint::new(11);
    assert_eq!(endpoint.id(), 11);
    assert_eq!(endpoint.loans_issued(), 0);
    assert_eq!(endpoint.returns_issued(), 0);
    assert!(!endpoint.is_outstanding(0));
    assert!(!endpoint.is_outstanding(0x1000));
}

#[test]
fn single_release_per_view() {
    let mut endpoint = Endpoint::new(1);
    let mut views = Vec::new();
    for k in 0..3u64 {
        views.push(endpoint.issue_loan(0x1000 + k, vec![k as u8]));
    }
    assert_eq!(endpoint.loans_issued(), 3);
    assert_eq!(endpoint.returns_issued(), 0);
    for view in views {
        view.release(&mut endpoint);
    }
    assert_eq!(endpoint.returns_issued(), 3);
    assert_eq!(endpoint.loans_issued(), 3);
}

fn read_first_byte(
    endpoint: &mut Endpoint,
    view: ReadOnlyLoanedMessage<Vec<u8>>,
) -> Result<u8, String> {
    let first = match view.message().first() {
        Some(byte) => *byte,
        None => {
            // Error path: the loan still goes back before the early return.
            view.release(endpoint);
            return Err(String::from("empty message"));
        }
    };
    view.release(endpoint);
    Ok(first)
}

#[test]
fn release_fires_on_error_path() {
    let mut endpoint = Endpoint::new(2);
    let view = endpoint.issue_loan(0xA0, Vec::new());
    let result = read_first_byte(&mut endpoint, view);
    assert!(result.is_err());
    assert_eq!(endpoint.returns_issued(), 1);
    assert!(!endpoint.is_outstanding(0xA0));
}

#[test]
fn release_fires_on_success_path() {
    let mut endpoint = Endpoint::new(2);
    let view = endpoint.issue_loan(0xA4, vec![7u8, 8]);
    let result = read_first_byte(&mut endpoint, view);
    assert_eq!(result, Ok(7));
    assert_eq!(endpoint.returns_issued(), 1);
    assert!(!endpoint.is_outstanding(0xA4));
}

#[test]
fn repeated_reads_identical() {
    let mut endpoint = Endpoint::new(3);
    let view = endpoint.issue_loan(0xB0, vec![1u8, 2, 3]);
    let first_read: Vec<u8> = view.message().clone();
    let second_read: Vec<u8> = view.message().clone();
    assert_eq!(first_read, second_read);
    assert_eq!(first_read, vec![1u8, 2, 3]);
    view.release(&mut endpoint);
}

#[derive(Clone, Copy, PartialEq, Eq, Debug)]
struct FooWire {
    value: u16,
    flag: u8,
}

#[test]
fn typed_view_reads_wire_value() {
    let mut endpoint = Endpoint::new(9);
    let sample = FooWire { value: 42, flag: 1 };
    let view = endpoint.issue_loan(0x2000, sample);
    assert_eq!(*view.message(), sample);
    view.release(&mut endpoint);
    assert_eq!(endpoint.returns_issued(), 1);
}

#[test]
fn return_of_unknown_loan_is_refused() {
    let mut endpoint = Endpoint::new(5);
    assert_eq!(endpoint.return_loan(0xD0), Err(MiddlewareError::UnknownLoan));
    assert_eq!(endpoint.returns_issued(), 0);
    // Refused also while other loans are outstanding.
    let view = endpoint.issue_loan(0xD1, vec![1u8]);
    assert_eq!(endpoint.return_loan(0xD0), Err(MiddlewareError::UnknownLoan));
    assert_eq!(endpoint.returns_issued(), 0);
    view.release(&mut endpoint);
    // A returned loan is no longer outstanding, so a second return is refused.
    assert_eq!(endpoint.return_loan(0xD1), Err(MiddlewareError::UnknownLoan));
    assert_eq!(endpoint.returns_issued(), 1);
}

#[test]
fn loan_roundtrip_scenario() {
    // Endpoint E with one outstanding loan at address A for message type Foo:
    // construct the view, read the known wire-native encoding back, release,
    // and observe exactly one return-loan call against (E, A).
    let mut endpoint = Endpoint::new(7);
    let address: u64 = 0x1000;
    let wire_foo: Vec<u8> = vec![0x2A, 0x00, 0x01];
    let view = endpoint.issue_loan(address, wire_foo.clone());
    assert!(endpoint.is_outstanding(address));
    assert_eq!(view.endpoint_id(), 7);
    assert_eq!(view.address(), address);
    assert_eq!(view.message().as_slice(), wire_foo.as_slice());
    view.release(&mut endpoint);
    assert!(!endpoint.is_outstanding(address));
    assert_eq!(endpoint.loans_issued(), 1);
    assert_eq!(endpoint.returns_issued(), 1);
}
