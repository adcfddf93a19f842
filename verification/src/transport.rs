use crate::error::FetchError;
use crate::tls::{
    feed_ciphertext, is_server_name, new_session, process_packets, queue_plaintext, server_name,
    take_ciphertext, take_plaintext, wants_write, Drained,
};
use crate::url::{Scheme, UrlRef};
use std::sync::Arc;
use vstd::prelude::*;
use vstd::slice::{slice_subrange, slice_to_vec};
use vstd::string::{StrSliceExecFns, StringExecFns};
use vstd::utf8::encode_utf8;

verus! {

/// The bytes that end a document: `</html>` and a line feed, in ASCII.
pub open spec fn terminator() -> Seq<u8> {
    seq![0x3cu8, 0x2fu8, 0x68u8, 0x74u8, 0x6du8, 0x6cu8, 0x3eu8, 0x0au8]
}

/// The bytes collected so far end with the terminator.
pub open spec fn is_complete(acc: Seq<u8>) -> bool {
    acc.len() >= terminator().len() && acc.skip(acc.len() - terminator().len()) == terminator()
}

/// The text of the request for `path` on `host`: one request line, one
/// `Host` header, one empty line, and nothing else.
pub open spec fn request_text(host: Seq<char>, path: Seq<char>) -> Seq<char> {
    "GET "@ + path + " HTTP/1.0\r\nHost: "@ + host + "\r\n\r\n"@
}

/// Whether `acc` ends with the terminator.
pub fn ends_with_terminator(acc: &[u8]) -> (r: bool)
    ensures
        r == is_complete(acc@),
{
    let mark: Vec<u8> = vec![0x3cu8, 0x2fu8, 0x68u8, 0x74u8, 0x6du8, 0x6cu8, 0x3eu8, 0x0au8];
    assert(mark@ =~= terminator());
    let n: usize = acc.len();
    if n < 8 {
        return false;
    }
    let ghost tail = acc@.skip(n - 8);
    let mut k: usize = 0;
    while k < 8
        invariant
            n == acc@.len(),
            n >= 8,
            k <= 8,
            mark@ == terminator(),
            tail == acc@.skip(n - 8),
            forall|j: int| 0 <= j < k ==> tail[j] == mark@[j],
        decreases 8 - k,
    {
        if acc[n - 8 + k] != mark[k] {
            assert(tail[k as int] != mark@[k as int]);
            return false;
        }
        k += 1;
    }
    assert(tail =~= mark@);
    true
}

/// The bytes to send for `url`.
pub fn request_for(url: &UrlRef) -> (bytes: Vec<u8>)
    ensures
        bytes@ == encode_utf8(request_text(url@.host, url@.path)),
{
    let mut text = String::new();
    text.append("GET ");
    text.append(url.path());
    text.append(" HTTP/1.0\r\nHost: ");
    text.append(url.host());
    text.append("\r\n\r\n");
    assert(text@ =~= request_text(url@.host, url@.path));
    text.as_str().as_bytes_vec()
}

/// Appends `chunk` to `acc` and says whether the document is complete.
pub fn absorb(acc: &mut Vec<u8>, chunk: &[u8]) -> (complete: bool)
    ensures
        final(acc)@ == old(acc)@ + chunk@,
        complete == is_complete(final(acc)@),
{
    acc.extend_from_slice(chunk);
    ends_with_terminator(acc.as_slice())
}

/// How far a fetch has come.
#[derive(Clone, Copy, Debug, PartialEq, Eq, Structural)]
pub enum Phase {
    /// The connection is being opened.
    Connecting,
    /// Bytes handed out by the last step are being written.
    Sending,
    /// The socket is being read.
    Receiving,
    /// The response is complete.
    Done,
    /// The fetch has failed, for good.
    Failed(FetchError),
}

/// What the caller reports after it has done what the last step asked for.
pub enum Event {
    /// The connection is open.
    Connected,
    /// The bytes have been written.
    Sent,
    /// The socket gave these bytes. None at all means that the stream has
    /// ended.
    Received(Vec<u8>),
    /// The stream has ended.
    Closed,
    /// Connecting, writing or reading failed.
    Failed,
}

/// What the caller is to do next.
pub enum Action {
    /// Write these bytes to the socket.
    Send(Vec<u8>),
    /// Read what the socket has.
    Receive,
    /// Stop: the collected bytes are the response.
    Finish,
    /// Stop: the fetch has failed with this error.
    Fail(FetchError),
}

/// An event as mathematical values.
pub enum EventView {
    Connected,
    Sent,
    Received(Seq<u8>),
    Closed,
    Failed,
}

/// An action as mathematical values.
pub enum ActionView {
    Send(Seq<u8>),
    Receive,
    Finish,
    Fail(FetchError),
}

/// A fetch as mathematical values.
pub struct FetchView {
    /// Whether the bytes travel through a TLS session.
    pub encrypted: bool,
    pub phase: Phase,
    /// The request, in plaintext.
    pub request: Seq<u8>,
    /// The response bytes collected so far, in plaintext.
    pub acc: Seq<u8>,
}

impl View for Event {
    type V = EventView;

    open spec fn view(&self) -> EventView {
        match self {
            Event::Connected => EventView::Connected,
            Event::Sent => EventView::Sent,
            Event::Received(bytes) => EventView::Received(bytes@),
            Event::Closed => EventView::Closed,
            Event::Failed => EventView::Failed,
        }
    }
}

impl View for Action {
    type V = ActionView;

    open spec fn view(&self) -> ActionView {
        match self {
            Action::Send(bytes) => ActionView::Send(bytes@),
            Action::Receive => ActionView::Receive,
            Action::Finish => ActionView::Finish,
            Action::Fail(e) => ActionView::Fail(*e),
        }
    }
}

/// The phase is one in which the fetch goes on.
pub open spec fn is_active(phase: Phase) -> bool {
    phase is Connecting || phase is Sending || phase is Receiving
}

/// The fetch as it begins.
pub open spec fn initial(encrypted: bool, request: Seq<u8>) -> FetchView {
    FetchView { encrypted, phase: Phase::Connecting, request, acc: Seq::empty() }
}

/// The error that a failure reported in `phase` stands for: the connection
/// could not be made, or it broke in mid-stream.
pub open spec fn failure_in(phase: Phase) -> FetchError {
    if phase is Connecting {
        FetchError::ConnectError
    } else {
        FetchError::IoError
    }
}

/// `pre` in another phase.
pub open spec fn moved(pre: FetchView, phase: Phase) -> FetchView {
    FetchView { phase, ..pre }
}

/// The action that tells the caller of a phase which needs no bytes from
/// the fetch: reading, having finished, having failed.
pub open spec fn action_in(phase: Phase) -> ActionView {
    match phase {
        Phase::Failed(e) => ActionView::Fail(e),
        Phase::Done => ActionView::Finish,
        _ => ActionView::Receive,
    }
}

/// A step of a plaintext fetch: the state that follows `pre` on `event`, and
/// what the caller is to do. The request is sent once the connection is
/// open; every chunk read is appended, and reading stops as soon as the
/// collected bytes end with the terminator or the stream ends. An event
/// that does not answer the last action fails the fetch. Nothing moves a
/// fetch that is done or has failed.
pub open spec fn plain_next(pre: FetchView, event: EventView) -> (FetchView, ActionView) {
    if !is_active(pre.phase) {
        (pre, action_in(pre.phase))
    } else {
        let broken = moved(pre, Phase::Failed(FetchError::IoError));
        match event {
            EventView::Failed => {
                let e = failure_in(pre.phase);
                (moved(pre, Phase::Failed(e)), ActionView::Fail(e))
            },
            EventView::Connected => if pre.phase is Connecting {
                (moved(pre, Phase::Sending), ActionView::Send(pre.request))
            } else {
                (broken, ActionView::Fail(FetchError::IoError))
            },
            EventView::Sent => if pre.phase is Sending {
                (moved(pre, Phase::Receiving), ActionView::Receive)
            } else {
                (broken, ActionView::Fail(FetchError::IoError))
            },
            EventView::Closed => if pre.phase is Receiving {
                (moved(pre, Phase::Done), ActionView::Finish)
            } else {
                (broken, ActionView::Fail(FetchError::IoError))
            },
            EventView::Received(chunk) => if !(pre.phase is Receiving) {
                (broken, ActionView::Fail(FetchError::IoError))
            } else if chunk.len() == 0 {
                (moved(pre, Phase::Done), ActionView::Finish)
            } else if is_complete(pre.acc + chunk) {
                (FetchView { phase: Phase::Done, acc: pre.acc + chunk, ..pre }, ActionView::Finish)
            } else {
                (
                    FetchView { phase: Phase::Receiving, acc: pre.acc + chunk, ..pre },
                    ActionView::Receive,
                )
            },
        }
    }
}

/// The action fits the phase that the fetch is left in.
pub open spec fn answers(phase: Phase, action: ActionView) -> bool {
    match phase {
        Phase::Connecting => false,
        Phase::Sending => action is Send,
        _ => action == action_in(phase),
    }
}

/// A step of an encrypted fetch, as far as it is settled whatever the
/// session does: `post` and `action` may follow `pre` on `event`. The
/// session decides what is sent and which plaintext a chunk of ciphertext
/// gives; what the fetch makes of each of the session's answers is said by
/// `handed_over`, `flush`, `taken_in`, `absorb` and `settle`. Settled here
/// are: the collected bytes only grow; once they have grown to end with the
/// terminator the fetch is done; the end of the stream ends the fetch with
/// what was collected; a failure reported by the caller, and an event out
/// of turn, fail it as they fail a plaintext fetch; a fetch that fails on a
/// chunk fails with `TlsError` or `IoError`.
pub open spec fn tls_next(
    pre: FetchView,
    event: EventView,
    post: FetchView,
    action: ActionView,
) -> bool {
    if !is_active(pre.phase) {
        post == pre && action == action_in(pre.phase)
    } else {
        &&& post.encrypted == pre.encrypted
        &&& post.request == pre.request
        &&& answers(post.phase, action)
        &&& match event {
            EventView::Failed => post.acc == pre.acc && post.phase == Phase::Failed(
                failure_in(pre.phase),
            ),
            EventView::Connected => post.acc == pre.acc && if pre.phase is Connecting {
                post.phase is Sending || post.phase is Receiving || post.phase == Phase::Failed(
                    FetchError::IoError,
                )
            } else {
                post.phase == Phase::Failed(FetchError::IoError)
            },
            EventView::Sent => post.acc == pre.acc && if pre.phase is Sending {
                post.phase is Sending || post.phase is Receiving || post.phase == Phase::Failed(
                    FetchError::IoError,
                )
            } else {
                post.phase == Phase::Failed(FetchError::IoError)
            },
            EventView::Closed => post.acc == pre.acc && post.phase == if pre.phase is Receiving {
                Phase::Done
            } else {
                Phase::Failed(FetchError::IoError)
            },
            EventView::Received(chunk) => if !(pre.phase is Receiving) {
                post.acc == pre.acc && post.phase == Phase::Failed(FetchError::IoError)
            } else if chunk.len() == 0 {
                post.acc == pre.acc && post.phase == Phase::Done
            } else {
                &&& pre.acc.is_prefix_of(post.acc)
                &&& is_complete(post.acc) ==> post.phase is Done || post.acc == pre.acc
                &&& post.phase is Failed ==> post.phase == Phase::Failed(FetchError::TlsError)
                    || post.phase == Phase::Failed(FetchError::IoError)
            },
        }
    }
}

/// A step of a fetch of either kind.
pub open spec fn stepped(
    pre: FetchView,
    event: EventView,
    post: FetchView,
    action: ActionView,
) -> bool {
    if pre.encrypted {
        tls_next(pre, event, post, action)
    } else {
        (post, action) == plain_next(pre, event)
    }
}

/// A fetch that goes on has not yet collected a complete document.
pub open spec fn consistent(state: FetchView) -> bool {
    is_active(state.phase) ==> !is_complete(state.acc)
}

/// Phase and action of a fetch that has failed with `e`.
pub open spec fn failed_with(e: FetchError) -> (Phase, ActionView) {
    (Phase::Failed(e), ActionView::Fail(e))
}

/// What a piece of ciphertext settles once its plaintext has been
/// collected: collected bytes that end with the terminator finish the
/// fetch, and so does a session closed in good order; a session that ended
/// in any other way fails it with `TlsError`. While the session is open and
/// the document incomplete nothing is settled, and the loop goes on.
pub open spec fn settled(complete: bool, drained: Drained) -> Option<(Phase, ActionView)> {
    if complete {
        Some((Phase::Done, ActionView::Finish))
    } else {
        match drained {
            Drained::Closed => Some((Phase::Done, ActionView::Finish)),
            Drained::Broken => Some(failed_with(FetchError::TlsError)),
            Drained::Open => None,
        }
    }
}

/// What follows when the session has been asked for its ciphertext: with
/// none to send the socket is read; ciphertext that was taken out is sent,
/// exactly as the session gave it; where it could not be taken out the
/// fetch fails with `IoError`.
pub open spec fn flushed(ciphertext: Option<Option<Seq<u8>>>) -> (Phase, ActionView) {
    match ciphertext {
        None => (Phase::Receiving, ActionView::Receive),
        Some(None) => failed_with(FetchError::IoError),
        Some(Some(bytes)) => (Phase::Sending, ActionView::Send(bytes)),
    }
}

/// What follows when a piece of ciphertext has been fed to the session: the
/// number of bytes that the session took, where it took some and accepted
/// them; `TlsError` where it took none or rejected them, as it does when
/// the handshake fails or the certificate is refused.
pub open spec fn fed(taken: Option<usize>, accepted: bool) -> Result<usize, FetchError> {
    match taken {
        Some(n) => if n > 0 && accepted {
            Ok(n)
        } else {
            Err(FetchError::TlsError)
        },
        None => Err(FetchError::TlsError),
    }
}

/// Nothing has been collected when a fetch begins, so it is consistent.
pub proof fn lemma_initial_consistent(encrypted: bool, request: Seq<u8>)
    ensures
        consistent(initial(encrypted, request)),
{
    assert(terminator().len() == 8);
}

/// No step leads a fetch to go on behind a complete document.
pub proof fn lemma_step_keeps_consistent(
    pre: FetchView,
    event: EventView,
    post: FetchView,
    action: ActionView,
)
    requires
        consistent(pre),
        stepped(pre, event, post, action),
    ensures
        consistent(post),
{
}

/// Reading stops on the terminator without waiting for the stream to end:
/// when the bytes collected after a chunk has come in end with the
/// terminator, the step asks the caller to finish.
pub proof fn lemma_terminator_finishes(
    pre: FetchView,
    chunk: Seq<u8>,
    post: FetchView,
    action: ActionView,
)
    requires
        consistent(pre),
        pre.phase is Receiving,
        stepped(pre, EventView::Received(chunk), post, action),
        is_complete(post.acc),
    ensures
        post.phase is Done,
        action is Finish,
{
}

/// A chunk read over a plaintext connection is appended as it is.
pub proof fn lemma_plain_chunk_appended(
    pre: FetchView,
    chunk: Seq<u8>,
    post: FetchView,
    action: ActionView,
)
    requires
        !pre.encrypted,
        pre.phase is Receiving,
        stepped(pre, EventView::Received(chunk), post, action),
    ensures
        post.acc == pre.acc + chunk,
        action is Finish <==> is_complete(post.acc) || chunk.len() == 0,
        action is Receive <==> !(action is Finish),
{
    assert(pre.acc + Seq::<u8>::empty() =~= pre.acc);
}

/// A stream that ends without the terminator still gives the bytes
/// collected so far: the step asks the caller to finish and the collected
/// bytes are as before.
pub proof fn lemma_close_finishes(
    pre: FetchView,
    event: EventView,
    post: FetchView,
    action: ActionView,
)
    requires
        pre.phase is Receiving,
        event is Closed || event == EventView::Received(Seq::<u8>::empty()),
        stepped(pre, event, post, action),
    ensures
        post.phase is Done,
        action is Finish,
        post.acc == pre.acc,
{
}

/// The state of a plaintext fetch after the chunks `chunks` have come in,
/// one after another.
pub open spec fn after_chunks(pre: FetchView, chunks: Seq<Seq<u8>>) -> FetchView
    decreases chunks.len(),
{
    if chunks.len() == 0 {
        pre
    } else {
        plain_next(after_chunks(pre, chunks.drop_last()), EventView::Received(chunks.last())).0
    }
}

/// The read loop as a whole, over plaintext: chunks that come in while the
/// collected bytes do not yet end with the terminator are all appended, in
/// order, and the loop is done exactly when the last of them completes the
/// document.
pub proof fn lemma_chunks_collected(pre: FetchView, chunks: Seq<Seq<u8>>)
    requires
        !pre.encrypted,
        pre.phase is Receiving,
        forall|k: int| 0 <= k < chunks.len() ==> (#[trigger] chunks[k]).len() > 0,
        forall|k: int|
            0 <= k < chunks.len() ==> !is_complete(pre.acc + #[trigger] chunks.take(k).flatten()),
    ensures
        after_chunks(pre, chunks).acc == pre.acc + chunks.flatten(),
        after_chunks(pre, chunks).phase == if chunks.len() > 0 && is_complete(
            pre.acc + chunks.flatten(),
        ) {
            Phase::Done
        } else {
            Phase::Receiving
        },
        after_chunks(pre, chunks).request == pre.request,
        !after_chunks(pre, chunks).encrypted,
    decreases chunks.len(),
{
    if chunks.len() == 0 {
        assert(chunks.flatten() =~= Seq::<u8>::empty());
        assert(pre.acc + Seq::<u8>::empty() =~= pre.acc);
    } else {
        let front = chunks.drop_last();
        let last = chunks.last();
        assert forall|k: int| 0 <= k < front.len() implies !is_complete(
            pre.acc + #[trigger] front.take(k).flatten(),
        ) by {
            assert(front.take(k) =~= chunks.take(k));
        }
        lemma_chunks_collected(pre, front);
        assert(chunks.take(front.len() as int) =~= front);
        assert(front.len() > 0 ==> front.take(front.len() as int) =~= front);
        front.lemma_flatten_push(last);
        assert(front.push(last) =~= chunks);
        assert(pre.acc + front.flatten() + last =~= pre.acc + (front.flatten() + last));
    }
}

/// Whether the session has taken the whole request: `queued` is what it
/// reported when the request of `request_len` bytes was handed to it.
pub fn handed_over(request_len: usize, queued: Option<usize>) -> (ok: bool)
    ensures
        ok == (queued == Some(request_len)),
{
    match queued {
        Some(n) => n == request_len,
        None => false,
    }
}

/// Decides what follows when the session has been asked for its
/// ciphertext. `None` says that it held none, `Some(None)` that taking it
/// out failed, `Some(Some(bytes))` that these bytes came out.
pub fn flush(ciphertext: Option<Option<Vec<u8>>>) -> (r: (Phase, Action))
    ensures
        (r.0, r.1@) == flushed(
            match ciphertext {
                None => None,
                Some(None) => Some(None),
                Some(Some(bytes)) => Some(Some(bytes@)),
            },
        ),
{
    match ciphertext {
        None => (Phase::Receiving, Action::Receive),
        Some(None) => (Phase::Failed(FetchError::IoError), Action::Fail(FetchError::IoError)),
        Some(Some(bytes)) => (Phase::Sending, Action::Send(bytes)),
    }
}

/// Decides what follows when a piece of ciphertext has been fed to the
/// session: `taken` is what the session reported of the bytes, `accepted`
/// whether it then accepted what it held.
pub fn taken_in(taken: Option<usize>, accepted: bool) -> (r: Result<usize, FetchError>)
    ensures
        r == fed(taken, accepted),
{
    match taken {
        Some(n) => if n > 0 && accepted {
            Ok(n)
        } else {
            Err(FetchError::TlsError)
        },
        None => Err(FetchError::TlsError),
    }
}

/// Decides what a piece of ciphertext has settled once its plaintext has
/// been collected: `complete` says whether the collected bytes end with the
/// terminator, `drained` how the session was found.
pub fn settle(complete: bool, drained: Drained) -> (r: Option<(Phase, Action)>)
    ensures
        match r {
            Some(end) => settled(complete, drained) == Some((end.0, end.1@)),
            None => settled(complete, drained) is None,
        },
{
    if complete {
        Some((Phase::Done, Action::Finish))
    } else {
        match drained {
            Drained::Closed => Some((Phase::Done, Action::Finish)),
            Drained::Broken => Some(
                (Phase::Failed(FetchError::TlsError), Action::Fail(FetchError::TlsError)),
            ),
            Drained::Open => None,
        }
    }
}

/// One fetch in progress: the decisions of the request and read loop. The
/// caller owns the socket and does what each step asks for; for an
/// encrypted fetch the TLS session lives here, and the bytes that pass
/// through the caller's hands are ciphertext.
pub struct Fetch {
    session: Option<rustls::ClientConnection>,
    phase: Phase,
    request: Vec<u8>,
    acc: Vec<u8>,
}

impl View for Fetch {
    type V = FetchView;

    closed spec fn view(&self) -> FetchView {
        FetchView {
            encrypted: self.session is Some,
            phase: self.phase,
            request: self.request@,
            acc: self.acc@,
        }
    }
}

/// Asks the session whether it holds ciphertext, takes it out if so, and
/// decides by `flush`.
fn flush_or_receive(session: &mut rustls::ClientConnection) -> (r: (Phase, Action))
    ensures
        r.0 is Sending || r.0 is Receiving || r.0 == Phase::Failed(FetchError::IoError),
        answers(r.0, r.1@),
{
    let ciphertext: Option<Option<Vec<u8>>> = if wants_write(session) {
        Some(take_ciphertext(session))
    } else {
        None
    };
    flush(ciphertext)
}

/// Hands the request to a fresh session. Where the session has taken all
/// of it, as `handed_over` says, its first ciphertext is taken out;
/// otherwise the fetch fails with `IoError`.
fn tls_begin(session: &mut rustls::ClientConnection, request: &[u8]) -> (r: (Phase, Action))
    ensures
        r.0 is Sending || r.0 is Receiving || r.0 == Phase::Failed(FetchError::IoError),
        answers(r.0, r.1@),
{
    let queued = queue_plaintext(session, request);
    if handed_over(request.len(), queued) {
        flush_or_receive(session)
    } else {
        (Phase::Failed(FetchError::IoError), Action::Fail(FetchError::IoError))
    }
}

/// Feeds a chunk of ciphertext to the session, piece by piece as the
/// session takes it. Each piece is judged by `taken_in`; the plaintext that
/// it gives is appended to `acc` by `absorb`, and `settle` says whether the
/// fetch ends there. When the chunk is used up `flush` decides.
fn tls_receive(session: &mut rustls::ClientConnection, acc: &mut Vec<u8>, chunk: &[u8]) -> (r: (
    Phase,
    Action,
))
    requires
        chunk@.len() > 0,
    ensures
        old(acc)@.is_prefix_of(final(acc)@),
        is_complete(final(acc)@) ==> r.0 is Done || final(acc)@ == old(acc)@,
        r.0 is Failed ==> r.0 == Phase::Failed(FetchError::TlsError) || r.0 == Phase::Failed(
            FetchError::IoError,
        ),
        !(r.0 is Connecting),
        answers(r.0, r.1@),
{
    let n: usize = chunk.len();
    let mut offset: usize = 0;
    while offset < n
        invariant
            offset <= n,
            n == chunk@.len(),
            old(acc)@.is_prefix_of(acc@),
            is_complete(acc@) ==> acc@ == old(acc)@,
        decreases n - offset,
    {
        let taken = feed_ciphertext(session, slice_subrange(chunk, offset, n));
        let accepted = process_packets(session);
        let used: usize = match taken_in(taken, accepted) {
            Ok(used) => used,
            Err(e) => {
                return (Phase::Failed(e), Action::Fail(e));
            },
        };
        let mut plaintext: Vec<u8> = Vec::new();
        let drained = take_plaintext(session, &mut plaintext);
        let complete = absorb(acc, plaintext.as_slice());
        match settle(complete, drained) {
            Some(end) => {
                return end;
            },
            None => {},
        }
        offset += used;
    }
    flush_or_receive(session)
}

impl Fetch {
    /// A plaintext fetch of `url`, about to connect.
    pub fn plain(url: &UrlRef) -> (fetch: Fetch)
        ensures
            fetch@ == initial(false, encode_utf8(request_text(url@.host, url@.path))),
    {
        Fetch { session: None, phase: Phase::Connecting, request: request_for(url), acc: Vec::new() }
    }

    /// An encrypted fetch of `url` through `session`, about to connect. The
    /// session is to be a fresh one, made for the host of `url`.
    pub fn with_session(url: &UrlRef, session: rustls::ClientConnection) -> (fetch: Fetch)
        ensures
            fetch@ == initial(true, encode_utf8(request_text(url@.host, url@.path))),
    {
        Fetch {
            session: Some(session),
            phase: Phase::Connecting,
            request: request_for(url),
            acc: Vec::new(),
        }
    }

    /// An encrypted fetch of `url`, about to connect. The session is made
    /// from `config` for the host of `url`. Where the host cannot name a
    /// server, or `rustls` refuses to make the session, the fetch fails
    /// with `TlsError`.
    pub fn encrypted(url: &UrlRef, config: &Arc<rustls::ClientConfig>) -> (r: Result<
        Fetch,
        FetchError,
    >)
        ensures
            match r {
                Ok(fetch) => is_server_name(url@.host) && fetch@ == initial(
                    true,
                    encode_utf8(request_text(url@.host, url@.path)),
                ),
                Err(e) => e == FetchError::TlsError,
            },
    {
        let name = match server_name(url.host()) {
            Some(name) => name,
            None => {
                return Err(FetchError::TlsError);
            },
        };
        match new_session(config, name) {
            Some(session) => Ok(Fetch::with_session(url, session)),
            None => Err(FetchError::TlsError),
        }
    }

    /// A fetch of `url` over the transport that its scheme names. A
    /// plaintext fetch always comes about.
    pub fn start(url: &UrlRef, config: &Arc<rustls::ClientConfig>) -> (r: Result<
        Fetch,
        FetchError,
    >)
        ensures
            match r {
                Ok(fetch) => fetch@ == initial(
                    url@.scheme == Scheme::Https,
                    encode_utf8(request_text(url@.host, url@.path)),
                ) && (url@.scheme == Scheme::Https ==> is_server_name(url@.host)),
                Err(e) => e == FetchError::TlsError && url@.scheme == Scheme::Https,
            },
    {
        match url.scheme() {
            Scheme::Http => Ok(Fetch::plain(url)),
            Scheme::Https => Fetch::encrypted(url, config),
        }
    }

    /// Takes in what the caller reports and says what it is to do next.
    pub fn step(&mut self, event: Event) -> (action: Action)
        ensures
            stepped(old(self)@, event@, final(self)@, action@),
    {
        match self.phase {
            Phase::Done => {
                return Action::Finish;
            },
            Phase::Failed(e) => {
                return Action::Fail(e);
            },
            _ => {},
        }
        let (phase, action): (Phase, Action) = match event {
            Event::Failed => {
                let e = match self.phase {
                    Phase::Connecting => FetchError::ConnectError,
                    _ => FetchError::IoError,
                };
                (Phase::Failed(e), Action::Fail(e))
            },
            Event::Connected => match self.phase {
                Phase::Connecting => match &mut self.session {
                    Some(session) => tls_begin(session, self.request.as_slice()),
                    None => (Phase::Sending, Action::Send(slice_to_vec(self.request.as_slice()))),
                },
                _ => (Phase::Failed(FetchError::IoError), Action::Fail(FetchError::IoError)),
            },
            Event::Sent => match self.phase {
                Phase::Sending => match &mut self.session {
                    Some(session) => flush_or_receive(session),
                    None => (Phase::Receiving, Action::Receive),
                },
                _ => (Phase::Failed(FetchError::IoError), Action::Fail(FetchError::IoError)),
            },
            Event::Closed => match self.phase {
                Phase::Receiving => (Phase::Done, Action::Finish),
                _ => (Phase::Failed(FetchError::IoError), Action::Fail(FetchError::IoError)),
            },
            Event::Received(chunk) => match self.phase {
                Phase::Receiving => {
                    if chunk.len() == 0 {
                        (Phase::Done, Action::Finish)
                    } else {
                        match &mut self.session {
                            Some(session) => tls_receive(session, &mut self.acc, chunk.as_slice()),
                            None => {
                                if absorb(&mut self.acc, chunk.as_slice()) {
                                    (Phase::Done, Action::Finish)
                                } else {
                                    (Phase::Receiving, Action::Receive)
                                }
                            },
                        }
                    }
                },
                _ => (Phase::Failed(FetchError::IoError), Action::Fail(FetchError::IoError)),
            },
        };
        self.phase = phase;
        action
    }

    /// How far the fetch has come.
    pub fn phase(&self) -> (r: Phase)
        ensures
            r == self@.phase,
    {
        self.phase
    }

    /// Whether the bytes travel through a TLS session.
    pub fn is_encrypted(&self) -> (r: bool)
        ensures
            r == self@.encrypted,
    {
        self.session.is_some()
    }

    /// The response bytes collected so far.
    pub fn collected(&self) -> (r: &[u8])
        ensures
            r@ == self@.acc,
    {
        self.acc.as_slice()
    }

    /// Ends the fetch and hands over the bytes that it has collected.
    pub fn into_response(self) -> (r: Vec<u8>)
        ensures
            r@ == self@.acc,
    {
        self.acc
    }
}

} // verus!
