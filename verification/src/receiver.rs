//! The share ingestion pipeline: receive one frame from the external feed,
//! decode it as a structured share value, and hand it to the internal
//! queue. Any failure — undecodable bytes, malformed text, a lost
//! transport, a closed queue — ends the loop for good; that policy is part
//! of the observed contract.
//!
//! The feed socket sits behind the `ShareSocket` capability so that the
//! loop can be driven by any message source, with no live network needed.

use vstd::prelude::*;

verus! {

/// A transport-level receive failure reported by the feed socket.
#[derive(Clone, Copy, Debug, PartialEq, Eq, Structural)]
pub struct RecvError;

/// Why share ingestion stopped. Each failure is final: the loop does not
/// reconnect or resume.
#[derive(Clone, Copy, Debug, PartialEq, Eq, Structural)]
pub enum IngestError {
    /// The feed handed bytes that did not decode to a text frame.
    DecodeFailure,
    /// The text frame was not valid structured text.
    MalformedFrame,
    /// The transport failed while receiving.
    TransportFailure,
    /// The downstream queue is closed, so the value could not be handed off.
    QueueClosed,
}

/// One receive from the share feed: a decoded text frame, the raw bytes of
/// a frame that failed to decode, or a transport failure.
pub trait ShareSocket {
    fn recv_string(&self) -> Result<Result<String, Vec<u8>>, RecvError>;
}

/// Declares `serde_json::Value`, the untyped structured value the feed
/// carries; opaque here, only ever handed through.
#[verifier::external_type_specification]
#[verifier::external_body]
pub struct ExValue(serde_json::Value);

/// Declares `tokio::sync::mpsc::Sender`, the producing end of the bounded
/// internal queue.
#[verifier::external_type_specification]
#[verifier::external_body]
#[verifier::reject_recursive_types(T)]
pub struct ExSender<T>(tokio::sync::mpsc::Sender<T>);

/// The texts the structured-value parser accepts; names the `Ok`-ness of
/// `serde_json::from_str` on a given text, a function of the text alone.
pub uninterp spec fn valid_share_text(s: Seq<char>) -> bool;

/// The structured value the parser yields on an accepted text; names the
/// `Ok` result of `serde_json::from_str`, a function of the text alone.
pub uninterp spec fn parsed_share_value(s: Seq<char>) -> serde_json::Value;

/// Relies on `serde_json::from_str::<Value>`: it returns `Ok` exactly on
/// the texts its grammar accepts, and which value it returns is decided by
/// the text alone.
#[verifier::external_body]
fn parse_share_text(s: &str) -> (r: Option<serde_json::Value>)
    ensures
        r is Some <==> valid_share_text(s@),
        r matches Some(v) ==> v == parsed_share_value(s@),
{
    serde_json::from_str::<serde_json::Value>(s).ok()
}

/// Relies on `tokio::sync::mpsc::Sender::blocking_send`: it blocks until
/// the bounded queue has room, and returns the value back exactly when the
/// channel is closed. Which outcome occurs depends on the receiving side,
/// so nothing more is promised. Must be called from outside any
/// asynchronous execution context.
#[verifier::external_body]
fn send_share(
    tx: &tokio::sync::mpsc::Sender<serde_json::Value>,
    v: serde_json::Value,
) -> (r: Result<(), serde_json::Value>)
    ensures
        r is Err ==> r->Err_0 == v,
{
    match tx.blocking_send(v) {
        Ok(()) => Ok(()),
        Err(e) => Err(e.0),
    }
}

/// Decides what one received frame means: the parse of exactly the frame's
/// own text to forward, or the exact failure that ends ingestion.
pub fn decode_frame(frame: Result<Result<String, Vec<u8>>, RecvError>) -> (r: Result<
    serde_json::Value,
    IngestError,
>)
    ensures
        r is Ok <==> (frame matches Ok(Ok(s)) && valid_share_text(s@)),
        frame matches Ok(Ok(s)) ==> (valid_share_text(s@) ==> r == Ok::<
            serde_json::Value,
            IngestError,
        >(parsed_share_value(s@))),
        frame is Err ==> r == Err::<serde_json::Value, IngestError>(IngestError::TransportFailure),
        frame matches Ok(Err(_)) ==> r == Err::<serde_json::Value, IngestError>(
            IngestError::DecodeFailure,
        ),
        (frame matches Ok(Ok(s)) && !valid_share_text(s@)) ==> r == Err::<
            serde_json::Value,
            IngestError,
        >(IngestError::MalformedFrame),
{
    match frame {
        Ok(Ok(text)) => match parse_share_text(text.as_str()) {
            Some(value) => Ok(value),
            None => Err(IngestError::MalformedFrame),
        },
        Ok(Err(_)) => Err(IngestError::DecodeFailure),
        Err(_) => Err(IngestError::TransportFailure),
    }
}

/// One turn of the ingestion loop over an already received frame: decode
/// it and hand the decoded value to the internal queue, blocking while the
/// queue is full. `Ok` continues the loop; every `Err` ends ingestion for
/// good, and which error comes out is fixed by the frame except that the
/// receiving side alone decides whether the queue is still open.
pub fn process_frame(
    frame: Result<Result<String, Vec<u8>>, RecvError>,
    tx: &tokio::sync::mpsc::Sender<serde_json::Value>,
) -> (r: Result<(), IngestError>)
    ensures
        frame is Err ==> r == Err::<(), IngestError>(IngestError::TransportFailure),
        frame matches Ok(Err(_)) ==> r == Err::<(), IngestError>(IngestError::DecodeFailure),
        (frame matches Ok(Ok(s)) && !valid_share_text(s@)) ==> r == Err::<(), IngestError>(
            IngestError::MalformedFrame,
        ),
        (frame matches Ok(Ok(s)) && valid_share_text(s@)) ==> (r == Ok::<(), IngestError>(())
            || r == Err::<(), IngestError>(IngestError::QueueClosed)),
        r == Err::<(), IngestError>(IngestError::QueueClosed) ==> (frame matches Ok(Ok(s))
            && valid_share_text(s@)),
{
    match decode_frame(frame) {
        Ok(value) => {
            if send_share(tx, value).is_err() {
                Err(IngestError::QueueClosed)
            } else {
                Ok(())
            }
        },
        Err(e) => Err(e),
    }
}

/// One turn of the ingestion loop against a live socket: receive a frame
/// and process it. The caller loops on `Ok` and stops for good on `Err`;
/// the loop itself stays with the caller, since no bound on the feed's
/// length exists.
pub fn ingest_once<S: ShareSocket>(
    socket: &S,
    tx: &tokio::sync::mpsc::Sender<serde_json::Value>,
) -> (r: Result<(), IngestError>)
{
    let frame = socket.recv_string();
    process_frame(frame, tx)
}

} // verus!
