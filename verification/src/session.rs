//! The streaming session: a verified state machine over plain values.
//!
//! The session owns no process or pipe.  The embedding application spawns
//! the worker from the `SpawnRequest` that `start` returns, writes the
//! bytes that `feed_audio_i16` returns to the worker's input pipe, hands
//! whatever arrives on the worker's output pipe to `push_worker_output`,
//! and reports end-of-stream with `close_worker_output`.  `poll_result`
//! then never blocks: it works entirely on the session's own buffer,
//! taking one line per call and decoding it as a result record.

use vstd::prelude::*;
use vstd::string::StringExecFns;
use crate::audio::le_bytes_spec;
use crate::audio::lemma_normalize_len;
use crate::audio::normalize_i16;
use crate::audio::normalize_spec;
use crate::audio::pcm_le_bytes;
use crate::errors::SessionError;
use crate::locate::home_joined;
use crate::locate::is_stream_candidate;
use crate::locate::path_exists;
use crate::wire::decode_line_spec;
use crate::wire::decode_result_line;
use crate::wire::StreamingResult;

verus! {

/// How audio reaches the worker: captured by the worker itself from the
/// microphone, or supplied by the caller through the feed methods.
#[derive(Clone, Copy, Debug, PartialEq, Eq, Structural)]
pub enum AudioInputMode {
    /// The worker captures audio from the microphone; feeding is invalid.
    Microphone,
    /// The caller supplies samples; the worker reads them from its input
    /// pipe.
    Programmatic,
}

/// Ghost view of a builder: the explicit path, if any, and the mode.
pub struct BuilderView {
    pub helper_path: Option<Seq<char>>,
    pub input_mode: AudioInputMode,
}

/// Configures and validates a streaming session before it exists.
pub struct StreamingTranscriberBuilder {
    helper_path: Option<String>,
    input_mode: AudioInputMode,
}

impl View for StreamingTranscriberBuilder {
    type V = BuilderView;

    closed spec fn view(&self) -> BuilderView {
        BuilderView {
            helper_path: match self.helper_path {
                Some(p) => Some(p@),
                None => None,
            },
            input_mode: self.input_mode,
        }
    }
}

/// What the embedding application must do to start the worker: run
/// `program` with `args`, with its output piped back, its diagnostics
/// inherited, and — exactly when `pipe_stdin` holds — its input piped for
/// audio.
#[derive(Debug, Clone)]
pub struct SpawnRequest {
    pub program: String,
    pub args: Vec<String>,
    pub pipe_stdin: bool,
}

struct WorkerChannel {
    buf: Vec<u8>,
    eof: bool,
}

/// Ghost view of a session: its configuration, whether a worker is live,
/// and the worker-output bytes buffered but not yet polled.
pub struct SessionView {
    pub helper_path: Seq<char>,
    pub input_mode: AudioInputMode,
    pub running: bool,
    pub buffered: Seq<u8>,
    pub ended: bool,
}

/// A streaming transcription session.
pub struct StreamingTranscriber {
    helper_path: String,
    input_mode: AudioInputMode,
    worker: Option<WorkerChannel>,
}

impl View for StreamingTranscriber {
    type V = SessionView;

    closed spec fn view(&self) -> SessionView {
        SessionView {
            helper_path: self.helper_path@,
            input_mode: self.input_mode,
            running: self.worker is Some,
            buffered: match self.worker {
                Some(w) => w.buf@,
                None => seq![],
            },
            ended: match self.worker {
                Some(w) => w.eof,
                None => false,
            },
        }
    }
}

impl StreamingTranscriberBuilder {
    /// A builder with the default settings: microphone input, default
    /// executable search.
    pub fn new() -> (r: Self)
        ensures
            r@.helper_path is None,
            r@.input_mode is Microphone,
    {
        StreamingTranscriberBuilder { helper_path: None, input_mode: AudioInputMode::Microphone }
    }

    /// Capture audio from the microphone (the default).
    pub fn with_microphone(self) -> (r: Self)
        ensures
            r@.input_mode is Microphone,
            r@.helper_path == self@.helper_path,
    {
        StreamingTranscriberBuilder { input_mode: AudioInputMode::Microphone, ..self }
    }

    /// Accept audio programmatically through the feed methods.
    pub fn with_programmatic_input(self) -> (r: Self)
        ensures
            r@.input_mode is Programmatic,
            r@.helper_path == self@.helper_path,
    {
        StreamingTranscriberBuilder { input_mode: AudioInputMode::Programmatic, ..self }
    }

    /// Use an explicit worker executable path instead of the search.
    pub fn with_helper_path(self, path: &str) -> (r: Self)
        ensures
            r@.helper_path == Some(path@),
            r@.input_mode == self@.input_mode,
    {
        StreamingTranscriberBuilder { helper_path: Some(String::from_str(path)), ..self }
    }

    /// Validate the configuration and produce a session.  An explicit path
    /// must exist; otherwise the well-known locations are searched and the
    /// first existing one wins.  No worker is spawned yet.
    pub fn build(self) -> (r: Result<StreamingTranscriber, SessionError>)
        ensures
            r matches Ok(t) ==> !t@.running && t@.buffered == Seq::<u8>::empty() && !t@.ended
                && t@.input_mode == self@.input_mode,
            self@.helper_path matches Some(p) ==> (r matches Ok(t) ==> t@.helper_path == p),
            self@.helper_path is None ==> (r matches Ok(t) ==> is_stream_candidate(
                t@.helper_path,
            )),
            r is Err ==> r matches Err(SessionError::Configuration(_)),
    {
        let helper: String;
        match self.helper_path {
            Some(p) => {
                if path_exists(p.as_str()) {
                    helper = p;
                } else {
                    return Err(
                        SessionError::Configuration(
                            String::from_str("Streaming helper binary not found at: ").concat(
                                p.as_str(),
                            ),
                        ),
                    );
                }
            },
            None => {
                let local = String::from_str("./helpers/transcribe_stream");
                if path_exists(local.as_str()) {
                    helper = local;
                } else {
                    let mut found: Option<String> = None;
                    if let Some(home) = home_joined(".local/bin/transcribe_stream") {
                        if path_exists(home.as_str()) {
                            found = Some(home);
                        }
                    }
                    match found {
                        Some(h) => {
                            helper = h;
                        },
                        None => {
                            let system = String::from_str("/usr/local/bin/transcribe_stream");
                            if path_exists(system.as_str()) {
                                helper = system;
                            } else {
                                return Err(
                                    SessionError::Configuration(
                                        String::from_str(
                                            "Streaming helper binary not found. Please compile with 'make helpers'.",
                                        ),
                                    ),
                                );
                            }
                        },
                    }
                }
            },
        }
        Ok(StreamingTranscriber { helper_path: helper, input_mode: self.input_mode, worker: None })
    }
}

impl Default for StreamingTranscriberBuilder {
    /// The same settings as `new`: microphone input, default search.
    fn default() -> (r: Self)
        ensures
            r@.helper_path is None,
            r@.input_mode is Microphone,
    {
        StreamingTranscriberBuilder::new()
    }
}

/// Index of the first newline in `b`, if any.
pub open spec fn first_nl(b: Seq<u8>) -> Option<int>
    decreases b.len(),
{
    if b.len() == 0 {
        None
    } else if b[0] == 0x0a {
        Some(0)
    } else {
        match first_nl(b.drop_first()) {
            None => None,
            Some(k) => Some(k + 1),
        }
    }
}

proof fn lemma_first_nl_char(b: Seq<u8>)
    ensures
        match first_nl(b) {
            None => forall|m: int| 0 <= m < b.len() ==> b[m] != 0x0a,
            Some(k) => 0 <= k < b.len() && b[k] == 0x0a && (forall|m: int|
                0 <= m < k ==> b[m] != 0x0a),
        },
    decreases b.len(),
{
    if b.len() != 0 && b[0] != 0x0a {
        let tail = b.drop_first();
        lemma_first_nl_char(tail);
        match first_nl(tail) {
            None => {
                assert forall|m: int| 0 <= m < b.len() implies b[m] != 0x0a by {
                    if m >= 1 {
                        assert(tail[m - 1] != 0x0a);
                    }
                }
            },
            Some(k) => {
                assert(b[k + 1] == 0x0a) by {
                    assert(tail[k] == b[k + 1]);
                }
                assert forall|m: int| 0 <= m < k + 1 implies b[m] != 0x0a by {
                    if m >= 1 {
                        assert(tail[m - 1] != 0x0a);
                    }
                }
            },
        }
    }
}

/// Find the first newline in the buffer.
fn find_nl(b: &Vec<u8>) -> (r: Option<usize>)
    ensures
        match first_nl(b@) {
            None => r is None,
            Some(k) => r matches Some(j) && j == k,
        },
{
    proof {
        lemma_first_nl_char(b@);
    }
    let mut j: usize = 0;
    while j < b.len()
        invariant
            j <= b@.len(),
            forall|m: int| 0 <= m < j ==> b@[m] != 0x0a,
        decreases b@.len() - j,
    {
        if b[j] == 0x0a {
            proof {
                lemma_first_nl_char(b@);
                assert(first_nl(b@) == Some(j as int));
            }
            return Some(j);
        }
        j = j + 1;
    }
    None
}

/// What `poll_result` returns for a drained line: the decoded record when
/// the line parses, and otherwise a decode error carrying the line.
pub open spec fn poll_line_outcome(
    r: Result<Option<StreamingResult>, SessionError>,
    line: Seq<u8>,
) -> bool {
    match decode_line_spec(line) {
        Some(rec) => r matches Ok(o) && o matches Some(res) && res.text@ == rec.0 && res.is_final
            == rec.1 && res.timestamp@ == rec.2,
        None => r matches Err(e) && e matches SessionError::Decode(l) && l@ == line,
    }
}

impl StreamingTranscriber {
    /// A builder for configuring a session.
    pub fn builder() -> (r: StreamingTranscriberBuilder)
        ensures
            r@.helper_path is None,
            r@.input_mode is Microphone,
    {
        StreamingTranscriberBuilder::new()
    }

    /// A session with the default settings: microphone input, default
    /// executable search.
    pub fn new() -> (r: Result<StreamingTranscriber, SessionError>)
        ensures
            r matches Ok(t) ==> !t@.running && t@.buffered == Seq::<u8>::empty() && !t@.ended
                && t@.input_mode is Microphone && is_stream_candidate(t@.helper_path),
            r is Err ==> r matches Err(SessionError::Configuration(_)),
    {
        Self::builder().build()
    }

    /// A microphone-input session with an explicit worker executable path.
    pub fn with_helper_path(path: &str) -> (r: Result<StreamingTranscriber, SessionError>)
        ensures
            r matches Ok(t) ==> !t@.running && t@.buffered == Seq::<u8>::empty() && !t@.ended
                && t@.input_mode is Microphone && t@.helper_path == path@,
            r is Err ==> r matches Err(SessionError::Configuration(_)),
    {
        Self::builder().with_helper_path(path).build()
    }

    /// Begin a run: the session becomes running with an empty output
    /// buffer, and the returned request tells the embedding application
    /// how to spawn the worker — in programmatic mode with the flag that
    /// makes the worker read audio from its input pipe, in microphone mode
    /// with no arguments.  Starting an already-running session is refused;
    /// stop it first, so the old worker is never leaked.
    pub fn start(&mut self) -> (r: Result<SpawnRequest, SessionError>)
        ensures
            old(self)@.running ==> (r matches Err(SessionError::AlreadyRunning) && final(self)@
                == old(self)@),
            !old(self)@.running ==> ({
                &&& r matches Ok(req)
                &&& final(self)@ == (SessionView {
                    running: true,
                    buffered: Seq::<u8>::empty(),
                    ended: false,
                    ..old(self)@
                })
                &&& (r matches Ok(req) ==> req.program@ == old(self)@.helper_path)
                &&& (r matches Ok(req) ==> req.pipe_stdin == (old(self)@.input_mode is Programmatic))
                &&& (r matches Ok(req) && old(self)@.input_mode is Programmatic ==> req.args@.len()
                    == 1 && req.args@[0]@ == "--stdin"@)
                &&& (r matches Ok(req) && old(self)@.input_mode is Microphone ==> req.args@.len()
                    == 0)
            }),
    {
        if self.worker.is_some() {
            return Err(SessionError::AlreadyRunning);
        }
        self.worker = Some(WorkerChannel { buf: Vec::new(), eof: false });
        let mut args: Vec<String> = Vec::new();
        let pipe_stdin = match self.input_mode {
            AudioInputMode::Microphone => false,
            AudioInputMode::Programmatic => true,
        };
        if pipe_stdin {
            args.push(String::from_str("--stdin"));
        }
        Ok(SpawnRequest { program: self.helper_path.clone(), args, pipe_stdin })
    }

    /// Normalize a chunk of 16-bit samples for the worker and return the
    /// bytes to write to its input pipe: the samples resampled to
    /// 16000 Hz, downmixed to mono, and serialized little-endian.  Valid
    /// only for a running session in programmatic mode; otherwise the
    /// session is unchanged, nothing is produced for the pipe, and the
    /// mode or state error is returned.
    pub fn feed_audio_i16(&mut self, samples: &Vec<i16>, sample_rate: u32, channels: u16) -> (r:
        Result<Vec<u8>, SessionError>)
        requires
            sample_rate >= 1,
            old(self)@.input_mode is Programmatic && old(self)@.running ==> samples@.len() * 32000
                + sample_rate <= usize::MAX,
        ensures
            final(self)@ == old(self)@,
            !(old(self)@.input_mode is Programmatic) ==> r matches Err(
                SessionError::ModeViolation,
            ),
            old(self)@.input_mode is Programmatic && !old(self)@.running ==> r matches Err(
                SessionError::NotStarted,
            ),
            old(self)@.input_mode is Programmatic && old(self)@.running ==> (r matches Ok(b)
                && b@ == le_bytes_spec(
                normalize_spec(samples@, sample_rate as int, channels as int),
            )),
    {
        match self.input_mode {
            AudioInputMode::Microphone => {
                return Err(SessionError::ModeViolation);
            },
            AudioInputMode::Programmatic => {},
        }
        if self.worker.is_none() {
            return Err(SessionError::NotStarted);
        }
        proof {
            lemma_normalize_len(samples@, sample_rate as int, channels as int);
        }
        let mono = normalize_i16(samples, sample_rate, channels);
        Ok(pcm_le_bytes(&mono))
    }

    /// Hand the session bytes read from the worker's output pipe; they are
    /// appended to the internal buffer for `poll_result` to drain.
    pub fn push_worker_output(&mut self, data: &Vec<u8>) -> (r: Result<(), SessionError>)
        ensures
            !old(self)@.running ==> (r matches Err(SessionError::NotStarted) && final(self)@
                == old(self)@),
            old(self)@.running ==> (r is Ok && final(self)@ == (SessionView {
                buffered: old(self)@.buffered + data@,
                ..old(self)@
            })),
    {
        let w = self.worker.take();
        match w {
            None => Err(SessionError::NotStarted),
            Some(mut wc) => {
                let mut i: usize = 0;
                let ghost orig = wc.buf@;
                let ghost eof0 = wc.eof;
                while i < data.len()
                    invariant
                        i <= data@.len(),
                        wc.eof == eof0,
                        wc.buf@ == orig + data@.take(i as int),
                    decreases data@.len() - i,
                {
                    wc.buf.push(data[i]);
                    assert(wc.buf@ =~= orig + data@.take(i + 1));
                    i = i + 1;
                }
                assert(wc.buf@ =~= orig + data@);
                self.worker = Some(wc);
                Ok(())
            },
        }
    }

    /// Record that the worker's output pipe has reached end-of-stream:
    /// once the buffer is drained, polling reports the channel ended.
    pub fn close_worker_output(&mut self) -> (r: Result<(), SessionError>)
        ensures
            !old(self)@.running ==> (r matches Err(SessionError::NotStarted) && final(self)@
                == old(self)@),
            old(self)@.running ==> (r is Ok && final(self)@ == (SessionView {
                ended: true,
                ..old(self)@
            })),
    {
        let w = self.worker.take();
        match w {
            None => Err(SessionError::NotStarted),
            Some(wc) => {
                self.worker = Some(WorkerChannel { buf: wc.buf, eof: true });
                Ok(())
            },
        }
    }

    /// Poll for the next result without blocking.  If a complete line is
    /// buffered, it is removed and decoded: a well-formed record is
    /// returned, a malformed line is a decode error carrying the line.
    /// With no complete line buffered: if the stream has not ended, there
    /// is simply no result yet; if it has, a trailing unterminated line is
    /// decoded the same way, and afterwards every poll reports the channel
    /// ended.  On a session that is not running, the state error.
    pub fn poll_result(&mut self) -> (r: Result<Option<StreamingResult>, SessionError>)
        ensures
            !old(self)@.running ==> (r matches Err(SessionError::NotStarted) && final(self)@
                == old(self)@),
            old(self)@.running ==> final(self)@ == (SessionView {
                buffered: final(self)@.buffered,
                ..old(self)@
            }),
            old(self)@.running ==> (first_nl(old(self)@.buffered) matches Some(k)
                ==> final(self)@.buffered == old(self)@.buffered.subrange(
                k + 1,
                old(self)@.buffered.len() as int,
            ) && poll_line_outcome(r, old(self)@.buffered.subrange(0, k))),
            old(self)@.running && first_nl(old(self)@.buffered) is None && !old(self)@.ended
                ==> (r matches Ok(o) && o is None && final(self)@.buffered == old(self)@.buffered),
            old(self)@.running && first_nl(old(self)@.buffered) is None && old(self)@.ended
                && old(self)@.buffered.len() == 0 ==> (r matches Err(SessionError::ChannelEnded)
                && final(self)@.buffered == old(self)@.buffered),
            old(self)@.running && first_nl(old(self)@.buffered) is None && old(self)@.ended && old(self)@.buffered.len() > 0 ==> final(self)@.buffered == Seq::<u8>::empty()
                && poll_line_outcome(r, old(self)@.buffered),
    {
        let w = self.worker.take();
        match w {
            None => Err(SessionError::NotStarted),
            Some(wc) => {
                match find_nl(&wc.buf) {
                    Some(j) => {
                        proof {
                            lemma_first_nl_char(wc.buf@);
                            assert(j < wc.buf@.len());
                        }
                        let n = wc.buf.len();
                        let line = crate::wire::copy_range(&wc.buf, 0, j);
                        let rest = crate::wire::copy_range(&wc.buf, j + 1, n);
                        self.worker = Some(WorkerChannel { buf: rest, eof: wc.eof });
                        match decode_result_line(&line) {
                            Some(res) => Ok(Some(res)),
                            None => Err(SessionError::Decode(line)),
                        }
                    },
                    None => {
                        if !wc.eof {
                            self.worker = Some(wc);
                            Ok(None)
                        } else if wc.buf.len() == 0 {
                            self.worker = Some(wc);
                            Err(SessionError::ChannelEnded)
                        } else {
                            let line = wc.buf;
                            self.worker = Some(WorkerChannel { buf: Vec::new(), eof: wc.eof });
                            proof {
                                assert(line@.subrange(0, line@.len() as int) =~= line@);
                            }
                            match decode_result_line(&line) {
                                Some(res) => Ok(Some(res)),
                                None => Err(SessionError::Decode(line)),
                            }
                        }
                    },
                }
            },
        }
    }

    /// Stop the session: the worker state is dropped and the session can
    /// be started again.  Idempotent — stopping a stopped session is a
    /// successful no-op.  The embedding application terminates and reaps
    /// the worker process itself.
    pub fn stop(&mut self) -> (r: Result<(), SessionError>)
        ensures
            r is Ok,
            final(self)@ == (SessionView {
                running: false,
                buffered: Seq::<u8>::empty(),
                ended: false,
                ..old(self)@
            }),
    {
        self.worker = None;
        Ok(())
    }

    /// The resolved location of the worker executable.
    pub fn helper_path(&self) -> (r: &String)
        ensures
            r@ == self@.helper_path,
    {
        &self.helper_path
    }

    /// Whether the session currently has a live worker.
    pub fn is_running(&self) -> (r: bool)
        ensures
            r == self@.running,
    {
        self.worker.is_some()
    }
}

} // verus!
