//! The adapter between the framing layers and a byte-stream driver.
use fprime_svc::com_stub::{Action, ByteStreamStatus, ComStub, RETRY_LIMIT};
use fprime_svc::fw::buffer::{Buffer, NO_CONTEXT};
use fprime_svc::fw::types::{FrameContext, Success};

/// A driver that answers from a script, and goes on with its last answer.
struct DriverStub {
    script: Vec<ByteStreamStatus>,
    sends: Vec<Vec<u8>>,
}

impl DriverStub {
    fn scripted(script: Vec<ByteStreamStatus>) -> Self {
        DriverStub { script, sends: Vec::new() }
    }

    fn send(&mut self, buffer: &Buffer) -> ByteStreamStatus {
        self.sends.push(buffer.to_vec());
        if self.script.len() > 1 {
            self.script.remove(0)
        } else {
            self.script[0]
        }
    }
}

/// What the adapter did, output by output.
#[derive(Default)]
struct Recorder {
    data_out: Vec<(Vec<u8>, FrameContext)>,
    data_return: Vec<(Vec<u8>, FrameContext)>,
    statuses: Vec<Success>,
    receive_returns: Vec<Vec<u8>>,
}

impl Recorder {
    fn take(&mut self, out: Vec<Action>) {
        for action in out {
            match action {
                Action::DataOut { buffer, context } => {
                    self.data_out.push((buffer.to_vec(), context));
                }
                Action::DataReturnOut { buffer, context } => {
                    self.data_return.push((buffer.to_vec(), context));
                }
                Action::ComStatusOut { condition } => self.statuses.push(condition),
                Action::DrvReceiveReturnOut { buffer } => {
                    self.receive_returns.push(buffer.to_vec());
                }
            }
        }
    }
}

fn build() -> (ComStub, Recorder) {
    let mut stub = ComStub::new();
    stub.connect_com_status();
    (stub, Recorder::default())
}

fn buffer_of(bytes: &[u8]) -> Buffer {
    Buffer::from_storage(bytes.to_vec(), NO_CONTEXT)
}

fn connect_driver(stub: &mut ComStub, rec: &mut Recorder) {
    let mut out = Vec::new();
    stub.drv_connected(&mut out);
    rec.take(out);
}

/// Has a buffer sent, asking the driver as often as the adapter wants.
fn send(
    stub: &mut ComStub,
    rec: &mut Recorder,
    driver: &mut DriverStub,
    buffer: Buffer,
    context: &FrameContext,
) {
    assert!(stub.takes_data());
    let mut sending = Some(stub.data_in(buffer, context));
    let mut out = Vec::new();
    while let Some(attempt) = sending {
        let status = driver.send(&attempt.buffer);
        sending = stub.send_tried(attempt, status, &mut out);
    }
    rec.take(out);
}

/// drvConnected emits the bootstrap SUCCESS exactly once.
#[test]
fn driver_ready_emits_success_once() {
    let (mut stub, mut rec) = build();
    connect_driver(&mut stub, &mut rec);
    assert_eq!(rec.statuses, vec![Success::Success]);
    // A second ready without a failure in between emits nothing.
    connect_driver(&mut stub, &mut rec);
    assert_eq!(rec.statuses.len(), 1);
}

/// drvConnected with comStatusOut unconnected does nothing (and keeps
/// the reinitialize flag set).
#[test]
fn driver_ready_without_status_port_is_noop() {
    let mut stub = ComStub::new();
    let mut rec = Recorder::default();
    connect_driver(&mut stub, &mut rec);
    assert!(stub.needs_reinitialize());
}

/// Happy send: one driver call, buffer returned, SUCCESS status.
#[test]
fn send_ok_returns_buffer_and_success() {
    let mut driver = DriverStub::scripted(vec![ByteStreamStatus::OpOk]);
    let (mut stub, mut rec) = build();
    connect_driver(&mut stub, &mut rec);
    let ctx = FrameContext::default();
    send(&mut stub, &mut rec, &mut driver, buffer_of(b"frame"), &ctx);

    assert_eq!(driver.sends, vec![b"frame".to_vec()]);
    assert_eq!(rec.data_return.len(), 1);
    assert_eq!(rec.data_return[0].0, b"frame");
    // Bootstrap SUCCESS + send SUCCESS.
    assert_eq!(
        rec.statuses,
        vec![Success::Success, Success::Success]
    );
}

/// SEND_RETRY a few times then OP_OK: retried inline, still SUCCESS.
#[test]
fn send_retry_then_ok() {
    let mut driver = DriverStub::scripted(vec![
        ByteStreamStatus::SendRetry,
        ByteStreamStatus::SendRetry,
        ByteStreamStatus::OpOk,
    ]);
    let (mut stub, mut rec) = build();
    connect_driver(&mut stub, &mut rec);
    send(&mut stub, &mut rec, &mut driver, buffer_of(b"r"), &FrameContext::default());
    assert_eq!(driver.sends.len(), 3);
    assert_eq!(
        rec.statuses,
        vec![Success::Success, Success::Success]
    );
    assert!(!stub.needs_reinitialize());
}

/// Retry exhaustion: exactly RETRY_LIMIT driver calls, FAILURE, and the
/// reinitialize handshake re-arms (recovery SUCCESS on next ready).
#[test]
fn retry_exhaustion_fails_and_rearms_handshake() {
    let mut driver = DriverStub::scripted(vec![ByteStreamStatus::SendRetry]);
    let (mut stub, mut rec) = build();
    connect_driver(&mut stub, &mut rec);
    send(&mut stub, &mut rec, &mut driver, buffer_of(b"x"), &FrameContext::default());
    assert_eq!(driver.sends.len(), RETRY_LIMIT as usize);
    assert_eq!(
        rec.statuses,
        vec![Success::Success, Success::Failure]
    );
    // Buffer still returned.
    assert_eq!(rec.data_return.len(), 1);
    assert!(stub.needs_reinitialize());
    // Driver reconnect emits the recovery SUCCESS.
    connect_driver(&mut stub, &mut rec);
    assert_eq!(
        rec.statuses,
        vec![Success::Success, Success::Failure, Success::Success]
    );
}

/// OTHER_ERROR: single attempt, FAILURE, reinitialize set.
#[test]
fn other_error_fails_immediately() {
    let mut driver = DriverStub::scripted(vec![ByteStreamStatus::OtherError]);
    let (mut stub, mut rec) = build();
    connect_driver(&mut stub, &mut rec);
    send(&mut stub, &mut rec, &mut driver, buffer_of(b"e"), &FrameContext::default());
    assert_eq!(driver.sends.len(), 1);
    assert_eq!(
        rec.statuses,
        vec![Success::Success, Success::Failure]
    );
    assert!(stub.needs_reinitialize());
}

/// Receive OP_OK: forwarded upstream with a DEFAULT FrameContext.
#[test]
fn receive_ok_forwards_with_default_context() {
    let (stub, mut rec) = build();
    let mut out = Vec::new();
    stub.drv_receive_in(buffer_of(b"rx"), ByteStreamStatus::OpOk, &mut out);
    rec.take(out);
    let out = &rec.data_out;
    assert_eq!(out.len(), 1);
    assert_eq!(out[0].0, b"rx");
    assert_eq!(out[0].1, FrameContext::default());
    assert!(rec.receive_returns.is_empty());
}

/// Receive failure: buffer returned to the driver, nothing forwarded.
#[test]
fn receive_error_returns_buffer_to_driver() {
    let (stub, mut rec) = build();
    let mut out = Vec::new();
    stub.drv_receive_in(buffer_of(b"bad"),
        ByteStreamStatus::RecvNoData, &mut out);
    rec.take(out);
    assert!(rec.data_out.is_empty());
    assert_eq!(rec.receive_returns, vec![b"bad".to_vec()]);
}

/// dataReturnIn hands the received buffer back to the driver.
#[test]
fn data_return_in_goes_to_driver() {
    let (stub, mut rec) = build();
    let mut out = Vec::new();
    stub.data_return_in(buffer_of(b"back"), &mut out);
    rec.take(out);
    assert_eq!(rec.receive_returns, vec![b"back".to_vec()]);
}

/// Nothing may be sent before the driver has connected.
#[test]
fn sending_waits_for_the_driver() {
    let (mut stub, mut rec) = build();
    assert!(!stub.takes_data());
    connect_driver(&mut stub, &mut rec);
    assert!(stub.takes_data());
}
