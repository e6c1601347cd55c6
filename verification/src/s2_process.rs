//! The state of an outside server process.
use crate::convert::{resolve_path, resolved};
use crate::error::{message, CoreError, ErrorView};
use crate::gguf_summary::optional_text;
use crate::models::ModelPair;
use crate::text::{dec, dec_i64, dec_int, dec_u64, strings};
use vstd::prelude::*;
use vstd::string::*;

verus! {

/// Where a server process stands.
#[derive(Debug, Clone, Copy, PartialEq, Eq, Structural)]
pub enum ServerStatus {
    Stopped,
    Starting,
    Running,
    Error,
}

/// How a server is to be started.
#[derive(Debug)]
pub struct ServerStartOptions {
    pub binary: String,
    pub workdir: String,
    pub port: u16,
    pub model_transformer: String,
    pub model_codec: String,
    pub vulkan_device: i32,
    pub codec_vulkan_device: i32,
    pub reference_wav: Option<String>,
    pub reference_text: Option<String>,
}

/// What the operating system says of a child process.
#[derive(Debug)]
pub enum ChildState {
    Alive,
    Exited(String),
    Unknown(String),
}

/// A server process as far as it is known. Times are milliseconds of a clock that never goes back.
#[derive(Debug)]
pub struct ServerProcess {
    pub has_child: bool,
    pub status: ServerStatus,
    pub last_error: Option<String>,
    pub started_at: Option<u64>,
    pub port: u16,
}

/// The arguments that the server is started with.
pub open spec fn server_arguments(opts: ServerStartOptions) -> Seq<Seq<char>> {
    seq![
        "-v"@,
        dec_int(opts.vulkan_device as int),
        "--codec-vulkan"@,
        dec_int(opts.codec_vulkan_device as int),
        "--model"@,
        "model.gguf"@,
        "--model-codec"@,
        "codec.gguf"@,
        "--port"@,
        dec(opts.port as nat),
    ]
}

impl ServerStartOptions {
    /// The arguments that the server is started with.
    pub fn arguments(&self) -> (r: Vec<String>)
        ensures
            strings(r@) == server_arguments(*self),
    {
        let mut args: Vec<String> = Vec::new();
        args.push(String::from_str("-v"));
        args.push(dec_i64(self.vulkan_device as i64));
        args.push(String::from_str("--codec-vulkan"));
        args.push(dec_i64(self.codec_vulkan_device as i64));
        args.push(String::from_str("--model"));
        args.push(String::from_str("model.gguf"));
        args.push(String::from_str("--model-codec"));
        args.push(String::from_str("codec.gguf"));
        args.push(String::from_str("--port"));
        args.push(dec_u64(self.port as u64));
        assert(strings(args@) =~= server_arguments(*self));
        args
    }

    /// Whether reference files are put into the working directory; else old ones are removed.
    pub fn has_reference(&self) -> (r: bool)
        ensures
            r == (self.reference_wav is Some && self.reference_text is Some),
    {
        self.reference_wav.is_some() && self.reference_text.is_some()
    }
}

impl ServerProcess {
    /// No process yet.
    pub fn new(port: u16) -> (r: ServerProcess)
        ensures
            r == (ServerProcess {
                has_child: false,
                status: ServerStatus::Stopped,
                last_error: None,
                started_at: None,
                port,
            }),
    {
        ServerProcess {
            has_child: false,
            status: ServerStatus::Stopped,
            last_error: None,
            started_at: None,
            port,
        }
    }

    /// Takes note of what the operating system says of the child, and tells whether it runs.
    /// Without a child the answer is no, whatever is said.
    pub fn is_running(&mut self, child: ChildState) -> (r: bool)
        ensures
            r == (old(self).has_child && child is Alive),
            !old(self).has_child || child is Alive ==> *final(self) == *old(self),
            old(self).has_child ==> (match child {
                ChildState::Alive => true,
                ChildState::Exited(status) => final(self).status == ServerStatus::Error
                    && optional_text(final(self).last_error) == Some(
                    "s2 server exited: "@ + status@,
                ) && !final(self).has_child,
                ChildState::Unknown(reason) => final(self).status == ServerStatus::Error
                    && optional_text(final(self).last_error) == Some(reason@)
                    && final(self).has_child,
            }),
            final(self).started_at == old(self).started_at,
            final(self).port == old(self).port,
    {
        if !self.has_child {
            return false;
        }
        match child {
            ChildState::Alive => true,
            ChildState::Exited(status) => {
                self.status = ServerStatus::Error;
                self.last_error = Some(
                    String::from_str("s2 server exited: ").concat(status.as_str()),
                );
                self.has_child = false;
                false
            },
            ChildState::Unknown(reason) => {
                self.status = ServerStatus::Error;
                self.last_error = Some(reason);
                false
            },
        }
    }

    /// The process was ended, or there was none.
    pub fn stop(&mut self)
        ensures
            *final(self) == (ServerProcess {
                has_child: false,
                status: ServerStatus::Stopped,
                started_at: None,
                ..*old(self)
            }),
    {
        self.has_child = false;
        self.status = ServerStatus::Stopped;
        self.started_at = None;
    }

    /// The first step of a start: whatever ran is over, and without a binary nothing follows.
    pub fn begin_start(&mut self, opts: &ServerStartOptions, binary_exists: bool) -> (r: Result<
        (),
        CoreError,
    >)
        ensures
            *final(self) == (ServerProcess {
                has_child: false,
                status: ServerStatus::Stopped,
                started_at: None,
                ..*old(self)
            }),
            match r {
                Ok(_) => binary_exists,
                Err(e) => !binary_exists && e@ == message(
                    "s2 binary not found: "@ + opts.binary@
                        + " (build mach92432/s2.cpp or set path in Settings)"@,
                ),
            },
    {
        self.stop();
        if !binary_exists {
            return Err(
                CoreError::Message(
                    String::from_str("s2 binary not found: ").concat(opts.binary.as_str()).concat(
                        " (build mach92432/s2.cpp or set path in Settings)",
                    ),
                ),
            );
        }
        Ok(())
    }

    /// Files are in place and the process is about to be started.
    pub fn mark_starting(&mut self)
        ensures
            *final(self) == (ServerProcess { status: ServerStatus::Starting, ..*old(self) }),
    {
        self.status = ServerStatus::Starting;
    }

    /// The process could not be started.
    pub fn spawn_failed(&mut self, reason: String) -> (r: CoreError)
        ensures
            r@ == ErrorView::Io(reason@),
            final(self).status == ServerStatus::Error,
            optional_text(final(self).last_error) == Some(reason@),
            final(self).has_child == old(self).has_child,
            final(self).started_at == old(self).started_at,
            final(self).port == old(self).port,
    {
        self.status = ServerStatus::Error;
        self.last_error = Some(reason.clone());
        CoreError::Io(reason)
    }

    /// The process runs from now on.
    pub fn spawned(&mut self, port: u16, now: u64)
        ensures
            *final(self) == (ServerProcess {
                has_child: true,
                status: ServerStatus::Running,
                last_error: None,
                started_at: Some(now),
                port,
            }),
    {
        self.has_child = true;
        self.port = port;
        self.started_at = Some(now);
        self.status = ServerStatus::Running;
        self.last_error = None;
    }

    /// For how many milliseconds the process has run at the given time.
    pub fn uptime(&self, now: u64) -> (r: Option<u64>)
        requires
            self.started_at matches Some(t) ==> t <= now,
        ensures
            r == (match self.started_at {
                Some(t) => Some((now - t) as u64),
                None => None::<u64>,
            }),
    {
        match self.started_at {
            Some(t) => Some(now - t),
            None => None,
        }
    }
}

/// Where the server's binary is looked for.
pub open spec fn binary_candidates() -> Seq<Seq<char>> {
    seq![
        "s2.exe"@,
        "s2"@,
        "build/s2.exe"@,
        "build/s2"@,
        "build/Release/s2.exe"@,
    ]
}

/// Where the server's binary is looked for.
pub fn default_s2_binary_candidates() -> (r: Vec<String>)
    ensures
        strings(r@) == binary_candidates(),
{
    let mut out: Vec<String> = Vec::new();
    out.push(String::from_str("s2.exe"));
    out.push(String::from_str("s2"));
    out.push(String::from_str("build/s2.exe"));
    out.push(String::from_str("build/s2"));
    out.push(String::from_str("build/Release/s2.exe"));
    assert(strings(out@) =~= binary_candidates());
    out
}

/// The server binary to use, given which of the default places hold one.
pub fn resolve_s2_binary(configured: &str, configured_exists: bool, found: &[bool]) -> (r: String)
    requires
        found@.len() == 5,
    ensures
        r@ == resolved(configured@, configured_exists, binary_candidates(), found@),
{
    let candidates = default_s2_binary_candidates();
    proof {
        assert(strings(candidates@).len() == 5);
    }
    resolve_path(configured, configured_exists, &candidates, found)
}

/// How to start a server for a pair of models.
#[allow(clippy::too_many_arguments)]
pub fn build_start_options(
    binary: String,
    workdir: String,
    port: u16,
    pair: &ModelPair,
    vulkan_device: i32,
    codec_vulkan_device: i32,
    reference_wav: Option<String>,
    reference_text: Option<String>,
) -> (r: ServerStartOptions)
    ensures
        r == (ServerStartOptions {
            binary,
            workdir,
            port,
            model_transformer: pair.transformer.path,
            model_codec: pair.codec.path,
            vulkan_device,
            codec_vulkan_device,
            reference_wav,
            reference_text,
        }),
{
    ServerStartOptions {
        binary,
        workdir,
        port,
        model_transformer: pair.transformer.path.clone(),
        model_codec: pair.codec.path.clone(),
        vulkan_device,
        codec_vulkan_device,
        reference_wav,
        reference_text,
    }
}

} // verus!
