//! The mesh session: keys, sequence numbers, and what is written to the proxy when.
//!
//! The controller does no input or output itself. Its methods say what is to
//! be written, and how long to wait; whoever drives it reports what happened.

use crate::config::{light_views, Config, LightConfig, LightView};
use crate::crypto::{
    ccm_open, k2, k2_t1, k2_t2, k2_t3, k4, k4_block, DerivedNetKey, CCM_MAX_LEN,
};
use crate::keys::{keys_outcome, parse_keys, KeyError};
use crate::octets::{
    append_bytes, be16, be_bytes, be_value, law_two_bytes, lemma_be_bytes_len,
    lemma_be_value_of_bytes,
};
use crate::pdu::{
    access_pdu, app_nonce_bytes, beacon_iv_index, build_proxy_config_pdu, build_proxy_pdu,
    config_payload, law_app_nonce_injective, law_net_nonce_injective, net_nonce_bytes,
    network_contents, network_payload, opcode_len, parse_iv_index, proxy_config_pdu,
    proxy_nonce_bytes, proxy_pdu, upper_transport, ALL_NODES, DEFAULT_TTL, GROUP_ALL,
    LOCAL_ADDRESS, PROXY_CFG_ADD_ADDRESSES, PROXY_CFG_SET_FILTER_TYPE, PROXY_FILTER_WHITELIST,
    PROXY_TYPE_NETWORK, PROXY_TYPE_PROXY_CONFIG, SEQ_MODULUS,
};
use crate::scan::{
    all_sighted, scan_outcome, scan_pass, sightings, Advert, ScanStep, Target, TargetView,
};
use crate::telink::{
    at_most, brightness_fields, cct_fields, command_fields, hsi_fields, payload, rgbww_fields,
    telink_brightness_payload, telink_cct_payload, telink_hsi_payload, telink_payload,
    telink_rgbww_payload,
};
use crate::text::{colons, hyphens_to_colons, lowercase, texts};
use vstd::arithmetic::power::pow;
use vstd::prelude::*;

verus! {

/// The vendor opcode of the lights' commands.
pub const LIGHT_OPCODE: u32 = 0x26;

/// How often a command is sent.
pub const COMMAND_RETRIES: u32 = 3;

/// How long a write may take, in milliseconds.
pub const WRITE_TIMEOUT_MS: u64 = 1500;

/// How long a status query waits for a response, in milliseconds.
pub const STATUS_TIMEOUT_MS: u64 = 3000;

/// How long a new connection waits for a beacon, in milliseconds.
pub const BEACON_TIMEOUT_MS: u64 = 4000;

/// How long a connection for one command is kept after it, in milliseconds.
pub const LINGER_MS: u64 = 1500;

/// The pause between two writes of one command, in milliseconds.
pub const RETRY_PAUSE_MS: u64 = 80;

/// The characteristic that PDUs are written to.
pub const PROXY_DATA_IN: u128 = 0x00002add_0000_1000_8000_00805f9b34fb;

/// The characteristic that notifies of PDUs.
pub const PROXY_DATA_OUT: u128 = 0x00002ade_0000_1000_8000_00805f9b34fb;

/// The battery level characteristic.
pub const BATTERY_LEVEL: u128 = 0x00002a19_0000_1000_8000_00805f9b34fb;

/// A number from `rand::random`. Nothing is known of it.
#[verifier::external_body]
fn random_u32() -> (r: u32) {
    rand::random::<u32>()
}

/// The session with the mesh.
pub struct MeshController {
    iv_index: u32,
    seq: u32,
    derived: DerivedNetKey,
    aid: u8,
    app_key: [u8; 16],
    relay_hub: String,
    pub lights: Vec<LightConfig>,
}

/// A session as contracts speak of it.
pub struct Session {
    pub iv_index: u32,
    pub seq: u32,
    pub nid: u8,
    pub enc_key: Seq<u8>,
    pub priv_key: Seq<u8>,
    pub aid: u8,
    pub app_key: Seq<u8>,
    pub relay_hub: Seq<char>,
    pub lights: Seq<LightView>,
}

impl View for MeshController {
    type V = Session;

    closed spec fn view(&self) -> Session {
        Session {
            iv_index: self.iv_index,
            seq: self.seq,
            nid: self.derived.nid,
            enc_key: self.derived.enc_key@,
            priv_key: self.derived.priv_key@,
            aid: self.aid,
            app_key: self.app_key@,
            relay_hub: self.relay_hub@,
            lights: light_views(self.lights@),
        }
    }
}

impl Session {
    /// Sequence numbers have 24 bits.
    pub open spec fn wf(self) -> bool {
        self.seq < SEQ_MODULUS
    }

    /// The session after its next `n` sequence numbers were used.
    pub open spec fn advanced(self, n: nat) -> Session {
        Session { seq: seq_after(self.seq, n), ..self }
    }
}

/// The sequence number `n` steps after `seq`.
pub open spec fn seq_after(seq: u32, n: nat) -> u32 {
    ((seq + n) % SEQ_MODULUS as int) as u32
}

/// A Bluetooth address in lower case with colons.
pub open spec fn normalized(addr: Seq<char>) -> Seq<char> {
    colons(lowercase(addr))
}

/// What a scan for the lights of a session looks for.
pub open spec fn scan_target_of(session: Session) -> TargetView {
    TargetView {
        hub_addr: normalized(session.relay_hub),
        hub_name: lowercase(session.relay_hub),
        macs: Seq::new(session.lights.len(), |i: int| normalized(session.lights[i].mac)),
    }
}

/// The session that a configuration starts, given a random number.
pub open spec fn initial_session(
    net: Seq<u8>,
    app: Seq<u8>,
    relay_hub: Seq<char>,
    lights: Seq<LightView>,
    random: u32,
) -> Session {
    Session {
        iv_index: 0,
        seq: (12_000_000 + random % 4_000_000) as u32,
        nid: k2_t1(net)[15] % 128,
        enc_key: k2_t2(net),
        priv_key: k2_t3(net),
        aid: k4_block(app)[15] % 64,
        app_key: app,
        relay_hub: normalized(relay_hub),
        lights,
    }
}

/// A message on its way: what is sent to whom, how often, and how often it was.
pub struct SendJob {
    pub dst: u16,
    pub opcode: u32,
    pub params: Vec<u8>,
    pub retries: u32,
    pub iv_index: u32,
    pub attempt: u32,
}

/// A message on its way, as contracts speak of it.
pub struct JobView {
    pub dst: u16,
    pub opcode: u32,
    pub params: Seq<u8>,
    pub retries: u32,
    pub iv_index: u32,
    pub attempt: u32,
}

impl View for SendJob {
    type V = JobView;

    open spec fn view(&self) -> JobView {
        JobView {
            dst: self.dst,
            opcode: self.opcode,
            params: self.params@,
            retries: self.retries,
            iv_index: self.iv_index,
            attempt: self.attempt,
        }
    }
}

impl JobView {
    /// The message fits in what can be encrypted.
    pub open spec fn fits(self) -> bool {
        opcode_len(self.opcode) + self.params.len() + 7 <= CCM_MAX_LEN
    }
}

/// What became of the last step of a job.
#[derive(Debug, Clone, Copy, PartialEq, Eq)]
pub enum SendEvent {
    /// Nothing was tried yet.
    Start,
    /// The write succeeded.
    Written,
    /// The write did not come back in time.
    TimedOut,
    /// The write failed.
    Failed,
    /// There is no connection to write to.
    NotConnected,
}

/// Why a job ended early.
#[derive(Debug, Clone, Copy, PartialEq, Eq)]
pub enum SendError {
    WriteFailed,
    NotConnected,
}

/// What to do next for a job.
pub enum SendAction {
    /// Wait, then write the PDU within the time given.
    Write { pause_ms: u64, pdu: Vec<u8>, timeout_ms: u64 },
    /// The job is done.
    Done,
    /// The job has failed.
    Abort(SendError),
}

/// What to do next for a job, as contracts speak of it.
pub enum ActionView {
    Write { pause_ms: u64, pdu: Seq<u8>, timeout_ms: u64 },
    Done,
    Abort(SendError),
}

impl View for SendAction {
    type V = ActionView;

    open spec fn view(&self) -> ActionView {
        match *self {
            SendAction::Write { pause_ms, pdu, timeout_ms } => ActionView::Write {
                pause_ms,
                pdu: pdu@,
                timeout_ms,
            },
            SendAction::Done => ActionView::Done,
            SendAction::Abort(e) => ActionView::Abort(e),
        }
    }
}

/// The PDU of a job under the sequence number `seq`.
pub open spec fn job_pdu(session: Session, job: JobView, seq: u32) -> Seq<u8> {
    proxy_pdu(
        session.app_key,
        session.aid,
        session.nid,
        session.enc_key,
        session.priv_key,
        seq,
        LOCAL_ADDRESS,
        job.dst,
        job.iv_index,
        job.opcode,
        job.params,
    )
}

/// Whether a receiver with the keys of the session finds the message of the job in `pdu`, under
/// the sequence number `seq`.
pub open spec fn carries(session: Session, job: JobView, seq: u32, pdu: Seq<u8>) -> bool {
    let upper = upper_transport(
        session.app_key,
        seq,
        LOCAL_ADDRESS,
        job.dst,
        job.iv_index,
        job.opcode,
        job.params,
    );
    &&& network_contents(pdu, session.enc_key, session.priv_key, job.iv_index) == Some(
        (network_payload(job.dst, session.aid, upper), seq, LOCAL_ADDRESS),
    )
    &&& ccm_open(
        session.app_key,
        app_nonce_bytes(seq, LOCAL_ADDRESS, job.dst, job.iv_index),
        upper,
    ) == Some(access_pdu(job.opcode, job.params))
}

/// The step of a job: a failed write ends it, a write that timed out counts as done, and every
/// attempt takes a sequence number of its own.
pub open spec fn job_step(session: Session, job: JobView, event: SendEvent) -> (
    Session,
    JobView,
    ActionView,
) {
    match event {
        SendEvent::Failed => (session, job, ActionView::Abort(SendError::WriteFailed)),
        SendEvent::NotConnected => (session, job, ActionView::Abort(SendError::NotConnected)),
        SendEvent::Start | SendEvent::Written | SendEvent::TimedOut => if job.attempt
            < job.retries {
            let next = session.advanced(1);
            (
                next,
                JobView { attempt: (job.attempt + 1) as u32, ..job },
                ActionView::Write {
                    pause_ms: if job.attempt == 0 {
                        0
                    } else {
                        RETRY_PAUSE_MS
                    },
                    pdu: job_pdu(session, job, next.seq),
                    timeout_ms: WRITE_TIMEOUT_MS,
                },
            )
        } else {
            (session, job, ActionView::Done)
        },
    }
}

/// How the proxy filter is set up: wait, write the first PDU, wait for the filter status, write
/// the second PDU, wait.
pub struct FilterSetup {
    pub settle_ms: u64,
    pub set_filter: Vec<u8>,
    pub status_timeout_ms: u64,
    pub add_addresses: Vec<u8>,
    pub finish_ms: u64,
}

/// The addresses that the proxy is asked to let through.
pub open spec fn filter_addresses(lights: Seq<LightView>) -> Seq<u16> {
    seq![LOCAL_ADDRESS, ALL_NODES, GROUP_ALL] + Seq::new(
        lights.len(),
        |i: int| lights[i].address,
    )
}

/// Addresses in a row, each with its high byte first.
pub open spec fn address_bytes(addresses: Seq<u16>) -> Seq<u8>
    decreases addresses.len(),
{
    if addresses.len() == 0 {
        Seq::empty()
    } else {
        address_bytes(addresses.drop_last()) + be_bytes(addresses.last() as nat, 2)
    }
}

/// A configuration PDU of the session under the sequence number `seq`.
pub open spec fn filter_pdu(session: Session, seq: u32, opcode: u8, params: Seq<u8>) -> Seq<u8> {
    proxy_config_pdu(
        session.nid,
        session.enc_key,
        session.priv_key,
        seq,
        LOCAL_ADDRESS,
        session.iv_index,
        opcode,
        params,
    )
}

/// Whether a proxy with the keys of the session finds `payload` in a configuration PDU.
pub open spec fn opens_config(session: Session, seq: u32, pdu: Seq<u8>, payload: Seq<u8>) -> bool {
    ccm_open(
        session.enc_key,
        proxy_nonce_bytes(seq, LOCAL_ADDRESS, session.iv_index),
        pdu.skip(8),
    ) == Some(payload)
}

/// What a notification of the proxy amounts to.
#[derive(Debug, Clone, Copy, PartialEq, Eq)]
pub struct Notification {
    /// It answers a filter configuration.
    pub filter_status: bool,
    /// It is a beacon with this IV index.
    pub iv_index: Option<u32>,
    /// It is a network PDU, to be handed to whoever waits for a response.
    pub response: bool,
}

/// What a notification of the characteristic `uuid` amounts to.
pub open spec fn notification(uuid: u128, value: Seq<u8>) -> Notification {
    let kind = if value.len() > 0 {
        value[0] as int % 64
    } else {
        0
    };
    if uuid != PROXY_DATA_OUT {
        Notification { filter_status: false, iv_index: None, response: false }
    } else {
        Notification {
            filter_status: kind == PROXY_TYPE_PROXY_CONFIG,
            iv_index: beacon_iv_index(value),
            response: kind == PROXY_TYPE_NETWORK,
        }
    }
}

/// What came of waiting for a status response.
pub enum StatusEvent {
    Data(Vec<u8>),
    Lagged,
    Closed,
    TimedOut,
}

/// Why there is no status.
#[derive(Debug, Clone, Copy, PartialEq, Eq)]
pub enum StatusError {
    Lagged,
    Closed,
    TimedOut,
}

impl StatusError {
    /// The error in words.
    pub fn message(&self) -> (r: String)
        ensures
            r@ == (match *self {
                StatusError::Lagged => "response channel lagged"@,
                StatusError::Closed => "response channel closed"@,
                StatusError::TimedOut => "status query timed out"@,
            }),
    {
        match self {
            StatusError::Lagged => "response channel lagged".to_owned(),
            StatusError::Closed => "response channel closed".to_owned(),
            StatusError::TimedOut => "status query timed out".to_owned(),
        }
    }
}

/// A percentage in thousandths, at most full scale.
pub open spec fn permille(percent: u8) -> u16 {
    at_most(percent * 10, 1000) as u16
}

/// A percentage in thousandths, at most full scale.
pub fn to_permille(percent: u8) -> (r: u16)
    ensures
        r == permille(percent),
{
    if percent < 100 {
        percent as u16 * 10
    } else {
        1000
    }
}

/// A Bluetooth address in lower case with colons.
pub fn normalize_addr(addr: &str) -> (r: String)
    ensures
        r@ == normalized(addr@),
{
    hyphens_to_colons(addr.to_lowercase().as_str())
}

impl MeshController {
    /// A session with the keys and lights of `config` whose first sequence number comes from
    /// `random`.
    pub fn with_random(config: Config, random: u32) -> (r: Result<MeshController, KeyError>)
        ensures
            match r {
                Ok(c) => exists|net: Seq<u8>, app: Seq<u8>|
                    {
                        &&& #[trigger] keys_outcome(
                            config.net_key@,
                            config.app_key@,
                            Ok((net, app)),
                        )
                        &&& c@ == initial_session(
                            net,
                            app,
                            config.relay_hub@,
                            light_views(config.lights@),
                            random,
                        )
                        &&& c@.wf()
                    },
                Err(e) => keys_outcome(config.net_key@, config.app_key@, Err(e)),
            },
    {
        let (net_key, app_key) = match parse_keys(
            config.net_key.as_str(),
            config.app_key.as_str(),
        ) {
            Ok(keys) => keys,
            Err(e) => return Err(e),
        };
        let derived = k2(&net_key);
        let aid: u8 = k4(&app_key);
        let c = MeshController {
            iv_index: 0,
            seq: 12_000_000 + random % 4_000_000,
            derived,
            aid,
            app_key,
            relay_hub: normalize_addr(config.relay_hub.as_str()),
            lights: config.lights,
        };
        assert(keys_outcome(config.net_key@, config.app_key@, Ok((net_key@, app_key@))));
        Ok(c)
    }

    /// A session with the keys and lights of `config` and a random first sequence number.
    pub fn new(config: Config) -> (r: Result<MeshController, KeyError>)
        ensures
            match r {
                Ok(c) => exists|net: Seq<u8>, app: Seq<u8>, random: u32|
                    {
                        &&& #[trigger] keys_outcome(
                            config.net_key@,
                            config.app_key@,
                            Ok((net, app)),
                        )
                        &&& c@ == #[trigger] initial_session(
                            net,
                            app,
                            config.relay_hub@,
                            light_views(config.lights@),
                            random,
                        )
                        &&& c@.wf()
                    },
                Err(e) => keys_outcome(config.net_key@, config.app_key@, Err(e)),
            },
    {
        MeshController::with_random(config, random_u32())
    }

    /// The lights of the session.
    pub fn known_lights(&self) -> (r: &Vec<LightConfig>)
        ensures
            light_views(r@) == self@.lights,
    {
        &self.lights
    }

    /// What a scan for the lights of the session looks for.
    pub fn scan_target(&self) -> (r: Target)
        ensures
            r@ == scan_target_of(self@),
    {
        let mut macs: Vec<String> = Vec::new();
        let mut i: usize = 0;
        while i < self.lights.len()
            invariant
                i <= self.lights@.len(),
                macs@.len() == i,
                forall|k: int|
                    0 <= k < i ==> (#[trigger] macs@[k])@ == normalized(self.lights@[k].mac@),
            decreases self.lights@.len() - i,
        {
            macs.push(normalize_addr(self.lights[i].mac.as_str()));
            i = i + 1;
        }
        assert(texts(macs@) =~= scan_target_of(self@).macs);
        Target {
            hub_addr: normalize_addr(self.relay_hub.as_str()),
            hub_name: self.relay_hub.as_str().to_lowercase(),
            macs,
        }
    }

    /// One pass of the scan that precedes a connection: what to do about the devices in range,
    /// `elapsed` nanoseconds after the scan started.
    pub fn connect(&self, adverts: &Vec<Advert>, has_best: bool, elapsed: u128) -> (r: ScanStep)
        ensures
            scan_outcome(
                scan_target_of(self@),
                all_sighted(adverts@),
                has_best,
                elapsed,
                r,
            ),
    {
        scan_pass(&self.scan_target(), &sightings(adverts), has_best, elapsed)
    }

    /// The IV index that the last beacon announced.
    pub fn iv(&self) -> (r: u32)
        ensures
            r == self@.iv_index,
    {
        self.iv_index
    }

    /// The IV index to go on with after waiting for a beacon: zero where none came.
    pub fn wait_for_beacon(&self, received: bool) -> (r: u32)
        ensures
            r == if received {
                self@.iv_index
            } else {
                0
            },
    {
        if received {
            self.iv_index
        } else {
            0
        }
    }

    /// Takes a notification in: a beacon sets the IV index.
    pub fn handle_notification(&mut self, uuid: u128, value: &[u8]) -> (r: Notification)
        ensures
            r == notification(uuid, value@),
            final(self)@ == (Session {
                iv_index: match r.iv_index {
                    Some(iv) => iv,
                    None => old(self)@.iv_index,
                },
                ..old(self)@
            }),
    {
        if uuid != PROXY_DATA_OUT {
            return Notification { filter_status: false, iv_index: None, response: false };
        }
        let kind: u8 = if value.len() > 0 {
            value[0] % 64
        } else {
            0
        };
        let beacon = parse_iv_index(value);
        if let Some(iv) = beacon {
            self.iv_index = iv;
        }
        Notification {
            filter_status: kind == PROXY_TYPE_PROXY_CONFIG,
            iv_index: beacon,
            response: kind == PROXY_TYPE_NETWORK,
        }
    }

    /// Takes the next sequence number.
    pub fn next_seq(&mut self) -> (r: u32)
        requires
            old(self)@.wf(),
        ensures
            final(self)@ == old(self)@.advanced(1),
            final(self)@.wf(),
            r == final(self)@.seq,
    {
        self.seq = (self.seq + 1) % SEQ_MODULUS;
        self.seq
    }

    /// The PDUs that set up the proxy filter, and the waits between them. Both sequence numbers
    /// are taken at once.
    pub fn setup_proxy_filter(&mut self) -> (r: FilterSetup)
        requires
            old(self)@.wf(),
            2 * (old(self)@.lights.len() + 3) + 3 <= CCM_MAX_LEN,
        ensures
            final(self)@ == old(self)@.advanced(2),
            final(self)@.wf(),
            r.settle_ms == 500,
            r.status_timeout_ms == 2000,
            r.finish_ms == 300,
            r.set_filter@ == filter_pdu(
                old(self)@,
                seq_after(old(self)@.seq, 1),
                PROXY_CFG_SET_FILTER_TYPE,
                seq![PROXY_FILTER_WHITELIST],
            ),
            r.add_addresses@ == filter_pdu(
                old(self)@,
                seq_after(old(self)@.seq, 2),
                PROXY_CFG_ADD_ADDRESSES,
                address_bytes(filter_addresses(old(self)@.lights)),
            ),
            opens_config(
                old(self)@,
                seq_after(old(self)@.seq, 1),
                r.set_filter@,
                config_payload(PROXY_CFG_SET_FILTER_TYPE, seq![PROXY_FILTER_WHITELIST]),
            ),
            opens_config(
                old(self)@,
                seq_after(old(self)@.seq, 2),
                r.add_addresses@,
                config_payload(
                    PROXY_CFG_ADD_ADDRESSES,
                    address_bytes(filter_addresses(old(self)@.lights)),
                ),
            ),
    {
        let ghost before = self@;
        let seq1: u32 = self.next_seq();
        let seq2: u32 = self.next_seq();
        let whitelist = [PROXY_FILTER_WHITELIST];
        assert(whitelist@ =~= seq![PROXY_FILTER_WHITELIST]);
        let set_filter = build_proxy_config_pdu(
            self.derived.nid,
            &self.derived.enc_key,
            &self.derived.priv_key,
            seq1,
            LOCAL_ADDRESS,
            self.iv_index,
            PROXY_CFG_SET_FILTER_TYPE,
            &whitelist,
        );

        let mut params: Vec<u8> = Vec::new();
        let ghost all = filter_addresses(before.lights);
        append_bytes(&mut params, &be16(LOCAL_ADDRESS));
        append_bytes(&mut params, &be16(ALL_NODES));
        append_bytes(&mut params, &be16(GROUP_ALL));
        proof {
            assert(all.take(3) =~= seq![LOCAL_ADDRESS, ALL_NODES, GROUP_ALL]);
            reveal_with_fuel(address_bytes, 4);
            lemma_be_bytes_len(LOCAL_ADDRESS as nat, 2);
            lemma_be_bytes_len(ALL_NODES as nat, 2);
            lemma_be_bytes_len(GROUP_ALL as nat, 2);
            assert(all.take(3).drop_last() =~= seq![LOCAL_ADDRESS, ALL_NODES]);
            assert(all.take(3).drop_last().drop_last() =~= seq![LOCAL_ADDRESS]);
            assert(all.take(3).drop_last().drop_last().drop_last() =~= Seq::<u16>::empty());
            assert(params@ =~= address_bytes(all.take(3)));
        }
        let mut i: usize = 0;
        while i < self.lights.len()
            invariant
                i <= self.lights@.len(),
                before.lights == light_views(self.lights@),
                all == filter_addresses(before.lights),
                params@ == address_bytes(all.take(3 + i)),
                params@.len() == 2 * (i + 3),
            decreases self.lights@.len() - i,
        {
            let address: u16 = self.lights[i].address;
            append_bytes(&mut params, &be16(address));
            proof {
                lemma_be_bytes_len(address as nat, 2);
                assert(all.take(4 + i).drop_last() =~= all.take(3 + i));
                assert(all.take(4 + i).last() == before.lights[i as int].address);
            }
            i = i + 1;
        }
        assert(all.take(3 + i) =~= all);
        let add_addresses = build_proxy_config_pdu(
            self.derived.nid,
            &self.derived.enc_key,
            &self.derived.priv_key,
            seq2,
            LOCAL_ADDRESS,
            self.iv_index,
            PROXY_CFG_ADD_ADDRESSES,
            params.as_slice(),
        );
        FilterSetup {
            settle_ms: 500,
            set_filter,
            status_timeout_ms: 2000,
            add_addresses,
            finish_ms: 300,
        }
    }

    /// A job that sends a message up to `retries` times under the present IV index.
    pub fn send(&self, dst: u16, opcode: u32, params: &[u8], retries: u32) -> (job: SendJob)
        ensures
            job@ == (JobView {
                dst,
                opcode,
                params: params@,
                retries,
                iv_index: self@.iv_index,
                attempt: 0,
            }),
    {
        SendJob {
            dst,
            opcode,
            params: vstd::slice::slice_to_vec(params),
            retries,
            iv_index: self.iv_index,
            attempt: 0,
        }
    }

    /// The next step of a job, given what became of the last one.
    pub fn send_step(&mut self, job: &mut SendJob, event: SendEvent) -> (action: SendAction)
        requires
            old(self)@.wf(),
            old(job)@.fits(),
        ensures
            (final(self)@, final(job)@, action@) == job_step(old(self)@, old(job)@, event),
            final(self)@.wf(),
            final(job)@.fits(),
            action@ matches ActionView::Write { pdu, .. } ==> carries(
                final(self)@,
                old(job)@,
                final(self)@.seq,
                pdu,
            ),
    {
        match event {
            SendEvent::Failed => SendAction::Abort(SendError::WriteFailed),
            SendEvent::NotConnected => SendAction::Abort(SendError::NotConnected),
            SendEvent::Start | SendEvent::Written | SendEvent::TimedOut => {
                if job.attempt < job.retries {
                    let pause_ms: u64 = if job.attempt == 0 {
                        0
                    } else {
                        RETRY_PAUSE_MS
                    };
                    let seq: u32 = self.next_seq();
                    let pdu = build_proxy_pdu(
                        &self.app_key,
                        self.aid,
                        self.derived.nid,
                        &self.derived.enc_key,
                        &self.derived.priv_key,
                        seq,
                        LOCAL_ADDRESS,
                        job.dst,
                        job.iv_index,
                        job.opcode,
                        job.params.as_slice(),
                    );
                    job.attempt = job.attempt + 1;
                    SendAction::Write { pause_ms, pdu, timeout_ms: WRITE_TIMEOUT_MS }
                } else {
                    SendAction::Done
                }
            },
        }
    }

    /// A job that turns a light on or off.
    pub fn set_on_off(&self, dst: u16, on: bool) -> (job: SendJob)
        ensures
            job@ == light_job(
                self@,
                dst,
                payload(
                    command_fields(
                        0x8c,
                        if on {
                            1
                        } else {
                            0
                        },
                    ),
                ),
            ),
            job@.fits(),
    {
        let params = telink_payload(
            0x8c,
            if on {
                1
            } else {
                0
            },
        );
        self.send(dst, LIGHT_OPCODE, &params, COMMAND_RETRIES)
    }

    /// A job that sets the brightness of a light in percent.
    pub fn set_brightness(&self, dst: u16, percent: u8) -> (job: SendJob)
        ensures
            job@ == light_job(self@, dst, payload(brightness_fields(permille(percent)))),
            job@.fits(),
    {
        let params = telink_brightness_payload(to_permille(percent));
        self.send(dst, LIGHT_OPCODE, &params, COMMAND_RETRIES)
    }

    /// A job that sets a white of the given brightness, colour temperature and shift.
    pub fn set_cct(&self, dst: u16, brightness_percent: u8, kelvin: u16, gm: i8) -> (job: SendJob)
        ensures
            job@ == light_job(
                self@,
                dst,
                payload(cct_fields(kelvin, permille(brightness_percent), gm)),
            ),
            job@.fits(),
    {
        let params = telink_cct_payload(kelvin, to_permille(brightness_percent), gm);
        self.send(dst, LIGHT_OPCODE, &params, COMMAND_RETRIES)
    }

    /// A job that sets a colour of the given brightness, hue and saturation.
    pub fn set_hsi(&self, dst: u16, brightness_percent: u8, hue: u16, saturation: u16) -> (job:
        SendJob)
        ensures
            job@ == light_job(
                self@,
                dst,
                payload(hsi_fields(hue, saturation, permille(brightness_percent))),
            ),
            job@.fits(),
    {
        let params = telink_hsi_payload(hue, saturation, to_permille(brightness_percent));
        self.send(dst, LIGHT_OPCODE, &params, COMMAND_RETRIES)
    }

    /// A job that sets the levels of the emitters.
    pub fn set_rgbww(
        &self,
        dst: u16,
        r: u16,
        g: u16,
        b: u16,
        ww: u16,
        cw: u16,
        intensity: u16,
    ) -> (job: SendJob)
        ensures
            job@ == light_job(self@, dst, payload(rgbww_fields(r, g, b, ww, cw, intensity))),
            job@.fits(),
    {
        let params = telink_rgbww_payload(r, g, b, ww, cw, intensity);
        self.send(dst, LIGHT_OPCODE, &params, COMMAND_RETRIES)
    }

    /// A job that asks a light for its status, once. The response is waited for as long as
    /// [`STATUS_TIMEOUT_MS`] says.
    pub fn query_status(&self, dst: u16) -> (job: SendJob)
        ensures
            job@ == (JobView {
                retries: 1,
                ..light_job(self@, dst, payload(command_fields(0xcf, 1)))
            }),
            job@.fits(),
    {
        let params = telink_payload(0xcf, 0x01);
        self.send(dst, LIGHT_OPCODE, &params, 1)
    }

    /// What a status query comes to.
    pub fn status_reply(event: StatusEvent) -> (r: Result<Vec<u8>, StatusError>)
        ensures
            r == (match event {
                StatusEvent::Data(data) => Ok(data),
                StatusEvent::Lagged => Err(StatusError::Lagged),
                StatusEvent::Closed => Err(StatusError::Closed),
                StatusEvent::TimedOut => Err(StatusError::TimedOut),
            }),
    {
        match event {
            StatusEvent::Data(data) => Ok(data),
            StatusEvent::Lagged => Err(StatusError::Lagged),
            StatusEvent::Closed => Err(StatusError::Closed),
            StatusEvent::TimedOut => Err(StatusError::TimedOut),
        }
    }

    /// The battery level in a reading of its characteristic, where there was one to read.
    pub fn read_battery(reading: Option<Vec<u8>>) -> (r: Option<u8>)
        ensures
            r == (match reading {
                Some(value) => if value@.len() > 0 {
                    Some(value@[0])
                } else {
                    None
                },
                None => None,
            }),
    {
        match reading {
            Some(value) => {
                if value.len() > 0 {
                    Some(value[0])
                } else {
                    None
                }
            },
            None => None,
        }
    }
}

/// The job of a light command.
pub open spec fn light_job(session: Session, dst: u16, params: Seq<u8>) -> JobView {
    JobView {
        dst,
        opcode: LIGHT_OPCODE,
        params,
        retries: COMMAND_RETRIES,
        iv_index: session.iv_index,
        attempt: 0,
    }
}

/// Sequence numbers go round: taking `a` and then `b` of them is taking `a + b`, and the numbers
/// stay within 24 bits.
pub proof fn law_seq_steps_add(seq: u32, a: nat, b: nat)
    ensures
        seq_after(seq_after(seq, a), b) == seq_after(seq, a + b),
        seq_after(seq, a) < SEQ_MODULUS,
{
}

/// No sequence number comes twice before all others were used.
pub proof fn law_seq_no_early_repeat(seq: u32, a: nat, b: nat)
    requires
        a < b,
        b - a < SEQ_MODULUS,
    ensures
        seq_after(seq, a) != seq_after(seq, b),
{
}

/// A new session is valid whatever the random number was: its sequence number lies between
/// twelve and sixteen million.
pub proof fn law_initial_session_valid(
    net: Seq<u8>,
    app: Seq<u8>,
    relay_hub: Seq<char>,
    lights: Seq<LightView>,
    random: u32,
)
    ensures
        initial_session(net, app, relay_hub, lights, random).wf(),
        12_000_000 <= initial_session(net, app, relay_hub, lights, random).seq < 16_000_000,
{
}

/// The session and the job after `n` steps in which no write failed.
pub open spec fn after_steps(session: Session, job: JobView, n: nat) -> (Session, JobView)
    decreases n,
{
    if n == 0 {
        (session, job)
    } else {
        let (s, j) = after_steps(session, job, (n - 1) as nat);
        let (s2, j2, _) = job_step(s, j, SendEvent::Written);
        (s2, j2)
    }
}

/// A job whose writes do not fail is written exactly `retries` times, each time the same message
/// under the next sequence number, and is then done.
pub proof fn law_job_writes(session: Session, job: JobView, n: nat)
    requires
        session.wf(),
        job.attempt == 0,
        n <= job.retries,
    ensures
        after_steps(session, job, n) == (
            session.advanced(n),
            JobView { attempt: n as u32, ..job },
        ),
        ({
            let (s, j) = after_steps(session, job, n);
            let action = job_step(s, j, SendEvent::Written).2;
            if n < job.retries {
                action == (ActionView::Write {
                    pause_ms: if n == 0 {
                        0
                    } else {
                        RETRY_PAUSE_MS
                    },
                    pdu: job_pdu(session, job, seq_after(session.seq, n + 1)),
                    timeout_ms: WRITE_TIMEOUT_MS,
                })
            } else {
                action == ActionView::Done
            }
        }),
    decreases n,
{
    let now = session.advanced(n);
    let done = JobView { attempt: n as u32, ..job };
    if n > 0 {
        law_job_writes(session, job, (n - 1) as nat);
        lemma_next_step(session, job, (n - 1) as nat);
    } else {
        assert(session.advanced(0) == session);
    }
    assert(after_steps(session, job, n) == (now, done));
    lemma_next_step(session, job, n);
}

/// The step of a job that was written `n` times already.
proof fn lemma_next_step(session: Session, job: JobView, n: nat)
    requires
        session.wf(),
        n <= job.retries,
    ensures
        job_step(
            session.advanced(n),
            JobView { attempt: n as u32, ..job },
            SendEvent::Written,
        ) == if n < job.retries {
            (
                session.advanced(n + 1),
                JobView { attempt: (n + 1) as u32, ..job },
                ActionView::Write {
                    pause_ms: if n == 0 {
                        0
                    } else {
                        RETRY_PAUSE_MS
                    },
                    pdu: job_pdu(session, job, seq_after(session.seq, n + 1)),
                    timeout_ms: WRITE_TIMEOUT_MS,
                },
            )
        } else {
            (session.advanced(n), JobView { attempt: n as u32, ..job }, ActionView::Done)
        },
{
    let now = session.advanced(n);
    let done = JobView { attempt: n as u32, ..job };
    law_seq_steps_add(session.seq, n, 1);
    assert(now.advanced(1) == session.advanced(n + 1));
    let seq = seq_after(session.seq, n + 1);
    assert(job_pdu(now, done, seq) == job_pdu(session, job, seq));
}

/// A write that timed out counts as done, and a failed one uses nothing up.
pub proof fn law_write_outcomes(session: Session, job: JobView)
    ensures
        job_step(session, job, SendEvent::TimedOut) == job_step(session, job, SendEvent::Written),
        job_step(session, job, SendEvent::Failed).0 == session,
        job_step(session, job, SendEvent::Failed).1 == job,
        job_step(session, job, SendEvent::NotConnected).0 == session,
        job_step(session, job, SendEvent::NotConnected).1 == job,
{
}

/// Two writes of one session with fewer than 2^24 sequence numbers between them use different
/// nonces, whatever they are sent to and under whatever IV index.
pub proof fn law_writes_use_fresh_nonces(
    seq: u32,
    a: nat,
    b: nat,
    dst1: u16,
    iv1: u32,
    dst2: u16,
    iv2: u32,
)
    requires
        a < b,
        b - a < SEQ_MODULUS,
    ensures
        net_nonce_bytes(0, DEFAULT_TTL, seq_after(seq, a), LOCAL_ADDRESS, iv1)
            != net_nonce_bytes(0, DEFAULT_TTL, seq_after(seq, b), LOCAL_ADDRESS, iv2),
        app_nonce_bytes(seq_after(seq, a), LOCAL_ADDRESS, dst1, iv1)
            != app_nonce_bytes(seq_after(seq, b), LOCAL_ADDRESS, dst2, iv2),
{
    let s1 = seq_after(seq, a);
    let s2 = seq_after(seq, b);
    law_seq_no_early_repeat(seq, a, b);
    law_seq_steps_add(seq, a, 0);
    law_seq_steps_add(seq, b, 0);
    if net_nonce_bytes(0, DEFAULT_TTL, s1, LOCAL_ADDRESS, iv1) == net_nonce_bytes(
        0,
        DEFAULT_TTL,
        s2,
        LOCAL_ADDRESS,
        iv2,
    ) {
        law_net_nonce_injective(
            0,
            DEFAULT_TTL,
            s1,
            LOCAL_ADDRESS,
            iv1,
            0,
            DEFAULT_TTL,
            s2,
            LOCAL_ADDRESS,
            iv2,
        );
    }
    if app_nonce_bytes(s1, LOCAL_ADDRESS, dst1, iv1) == app_nonce_bytes(
        s2,
        LOCAL_ADDRESS,
        dst2,
        iv2,
    ) {
        law_app_nonce_injective(s1, LOCAL_ADDRESS, dst1, iv1, s2, LOCAL_ADDRESS, dst2, iv2);
    }
}

/// The addresses in a filter message read back, two bytes each, in their order.
pub proof fn law_filter_addresses_read_back(addresses: Seq<u16>, i: int)
    requires
        0 <= i < addresses.len(),
    ensures
        address_bytes(addresses).len() == 2 * addresses.len(),
        be_value(address_bytes(addresses).subrange(2 * i, 2 * i + 2)) == addresses[i],
    decreases addresses.len(),
{
    let front = addresses.drop_last();
    let last = be_bytes(addresses.last() as nat, 2);
    lemma_be_bytes_len(addresses.last() as nat, 2);
    lemma_address_bytes_len(front);
    let all = address_bytes(addresses);
    if i == addresses.len() - 1 {
        assert(pow(256, 2) == 0x1_0000) by {
            reveal_with_fuel(pow, 3);
        }
        lemma_be_value_of_bytes(addresses.last() as nat, 2);
        assert(all.subrange(2 * i, 2 * i + 2) =~= last);
    } else {
        law_filter_addresses_read_back(front, i);
        assert(all.subrange(2 * i, 2 * i + 2) =~= address_bytes(front).subrange(2 * i, 2 * i + 2));
    }
}

proof fn lemma_address_bytes_len(addresses: Seq<u16>)
    ensures
        address_bytes(addresses).len() == 2 * addresses.len(),
    decreases addresses.len(),
{
    if addresses.len() > 0 {
        lemma_address_bytes_len(addresses.drop_last());
        lemma_be_bytes_len(addresses.last() as nat, 2);
    }
}

/// The proxy lets through this node, all nodes, the group of all lights, and every light, and
/// nothing else.
pub proof fn law_filter_covers(lights: Seq<LightView>, address: u16)
    ensures
        filter_addresses(lights).contains(address) <==> {
            ||| address == LOCAL_ADDRESS
            ||| address == ALL_NODES
            ||| address == GROUP_ALL
            ||| exists|i: int| 0 <= i < lights.len() && (#[trigger] lights[i]).address == address
        },
{
    let all = filter_addresses(lights);
    assert(all[0] == LOCAL_ADDRESS && all[1] == ALL_NODES && all[2] == GROUP_ALL);
    if exists|i: int| 0 <= i < lights.len() && (#[trigger] lights[i]).address == address {
        let i = choose|i: int| 0 <= i < lights.len() && (#[trigger] lights[i]).address == address;
        assert(all[i + 3] == address);
    }
    if all.contains(address) {
        let k = choose|k: int| 0 <= k < all.len() && all[k] == address;
        if k >= 3 {
            assert(lights[k - 3].address == address);
        }
    }
}

/// A notification is at most one of a filter status, a beacon and a response, and none of them
/// where it comes from another characteristic.
pub proof fn law_notification_kinds_apart(uuid: u128, value: Seq<u8>)
    ensures
        !(notification(uuid, value).filter_status && notification(uuid, value).response),
        notification(uuid, value).iv_index is Some ==> !notification(uuid, value).filter_status
            && !notification(uuid, value).response,
        uuid != PROXY_DATA_OUT ==> !notification(uuid, value).filter_status && !notification(
            uuid,
            value,
        ).response && notification(uuid, value).iv_index is None,
{
}

/// A new session starts at IV index zero, with a sequence number from twelve million on, the keys
/// that are derived from the given ones, the address of the hub in lower case with colons, and
/// the lights as they are.
pub proof fn law_session_starts(
    net: Seq<u8>,
    app: Seq<u8>,
    relay_hub: Seq<char>,
    lights: Seq<LightView>,
    random: u32,
)
    ensures
        ({
            let s = initial_session(net, app, relay_hub, lights, random);
            let lower = lowercase(relay_hub);
            &&& s.iv_index == 0
            &&& s.seq as int == 12_000_000 + random as int % 4_000_000
            &&& s.nid == k2_t1(net)[15] % 128
            &&& s.enc_key == k2_t2(net)
            &&& s.priv_key == k2_t3(net)
            &&& s.aid == k4_block(app)[15] % 64
            &&& s.app_key == app
            &&& s.lights == lights
            &&& s.relay_hub.len() == lower.len()
            &&& forall|i: int|
                0 <= i < lower.len() ==> #[trigger] s.relay_hub[i] == if lower[i] == '-' {
                    ':'
                } else {
                    lower[i]
                }
        }),
{
}

/// The sequence number after 16777215 is zero; after any other it is the next number.
pub proof fn law_seq_counts(session: Session)
    requires
        session.wf(),
    ensures
        session.seq < 16777216,
        session.seq == 16777215 ==> session.advanced(1).seq == 0,
        session.seq < 16777215 ==> session.advanced(1).seq == session.seq + 1,
        session.advanced(1) == (Session { seq: session.advanced(1).seq, ..session }),
{
}

/// One step of a job: while there are attempts left the message goes out under the next sequence
/// number, at once the first time and after 80 milliseconds every other time, and may take a
/// second and a half; then the job is done.
pub proof fn law_job_goes_on(session: Session, job: JobView, event: SendEvent)
    requires
        session.wf(),
        event == SendEvent::Start || event == SendEvent::Written || event == SendEvent::TimedOut,
    ensures
        ({
            let (s, j, action) = job_step(session, job, event);
            if job.attempt < job.retries {
                let seq = if session.seq == 16777215 {
                    0u32
                } else {
                    (session.seq + 1) as u32
                };
                &&& s == (Session { seq, ..session })
                &&& j == (JobView { attempt: (job.attempt + 1) as u32, ..job })
                &&& action == (ActionView::Write {
                    pause_ms: if job.attempt == 0 {
                        0
                    } else {
                        80
                    },
                    pdu: proxy_pdu(
                        session.app_key,
                        session.aid,
                        session.nid,
                        session.enc_key,
                        session.priv_key,
                        seq,
                        0x0001,
                        job.dst,
                        job.iv_index,
                        job.opcode,
                        job.params,
                    ),
                    timeout_ms: 1500,
                })
            } else {
                s == session && j == job && action == ActionView::Done
            }
        }),
        job_step(session, job, SendEvent::Failed) == (
            session,
            job,
            ActionView::Abort(SendError::WriteFailed),
        ),
        job_step(session, job, SendEvent::NotConnected) == (
            session,
            job,
            ActionView::Abort(SendError::NotConnected),
        ),
{
    law_seq_counts(session);
}

/// The jobs of commands: the vendor opcode, three attempts, and the IV index of the session.
pub proof fn law_light_jobs(session: Session, dst: u16, params: Seq<u8>)
    ensures
        light_job(session, dst, params) == (JobView {
            dst,
            opcode: 0x26,
            params,
            retries: 3,
            iv_index: session.iv_index,
            attempt: 0,
        }),
{
}

/// How long is waited: three seconds for a status, four for a beacon, and a second and a half for
/// a command to be on its way.
pub proof fn law_waits()
    ensures
        STATUS_TIMEOUT_MS == 3000,
        BEACON_TIMEOUT_MS == 4000,
        LINGER_MS == 1500,
        WRITE_TIMEOUT_MS == 1500,
        RETRY_PAUSE_MS == 80,
{
}

/// A percentage is ten times as many thousandths, and no more than all of them.
pub proof fn law_permille(percent: u8)
    ensures
        percent <= 100 ==> permille(percent) == 10 * percent,
        percent > 100 ==> permille(percent) == 1000,
{
}

/// The addresses that the proxy lets through, in their order: this node, all nodes, the group of
/// all lights, and the lights. Each is sent with its high byte first.
pub proof fn law_filter_in_bytes(lights: Seq<LightView>, i: int)
    requires
        0 <= i < lights.len(),
    ensures
        ({
            let b = address_bytes(filter_addresses(lights));
            &&& b.len() == 2 * lights.len() + 6
            &&& b.take(6) == seq![0x00u8, 0x01, 0xff, 0xff, 0xc0, 0x00]
            &&& b[2 * i + 6] as int == lights[i].address as int / 256
            &&& b[2 * i + 7] as int == lights[i].address as int % 256
        }),
        address_bytes(filter_addresses(Seq::empty())) == seq![
            0x00u8,
            0x01,
            0xff,
            0xff,
            0xc0,
            0x00,
        ],
{
    let all = filter_addresses(lights);
    let none = filter_addresses(Seq::empty());
    lemma_address_at(all, 0);
    lemma_address_at(all, 1);
    lemma_address_at(all, 2);
    lemma_address_at(all, i + 3);
    lemma_address_at(none, 0);
    lemma_address_at(none, 1);
    lemma_address_at(none, 2);
    assert(all[i + 3] == lights[i].address);
    assert(address_bytes(all).take(6) =~= seq![0x00u8, 0x01, 0xff, 0xff, 0xc0, 0x00]);
    assert(address_bytes(none) =~= seq![0x00u8, 0x01, 0xff, 0xff, 0xc0, 0x00]);
}

proof fn lemma_address_at(addresses: Seq<u16>, i: int)
    requires
        0 <= i < addresses.len(),
    ensures
        address_bytes(addresses).len() == 2 * addresses.len(),
        address_bytes(addresses)[2 * i] as int == addresses[i] as int / 256,
        address_bytes(addresses)[2 * i + 1] as int == addresses[i] as int % 256,
    decreases addresses.len(),
{
    let front = addresses.drop_last();
    law_two_bytes(addresses.last());
    lemma_address_bytes_len(front);
    if i < addresses.len() - 1 {
        lemma_address_at(front, i);
    }
}

/// The messages that set up the filter are configuration messages of the session, from this node.
pub proof fn law_filter_messages(session: Session, seq: u32, opcode: u8, params: Seq<u8>)
    ensures
        filter_pdu(session, seq, opcode, params) == proxy_config_pdu(
            session.nid,
            session.enc_key,
            session.priv_key,
            seq,
            0x0001,
            session.iv_index,
            opcode,
            params,
        ),
        PROXY_CFG_SET_FILTER_TYPE == 0x00,
        PROXY_CFG_ADD_ADDRESSES == 0x01,
        PROXY_FILTER_WHITELIST == 0x00,
{
}

/// A notification counts by its characteristic and by the lowest six bits of its first byte: a
/// two is a filter status, a zero, or an empty notification, a response, and a beacon tells its
/// IV index.
pub proof fn law_notifications(uuid: u128, value: Seq<u8>)
    ensures
        ({
            let n = notification(uuid, value);
            let ours = uuid == 0x00002ade_0000_1000_8000_00805f9b34fb;
            &&& n.filter_status <==> ours && value.len() > 0 && value[0] % 64 == 2
            &&& n.response <==> ours && (value.len() == 0 || value[0] % 64 == 0)
            &&& n.iv_index == if ours {
                beacon_iv_index(value)
            } else {
                None
            }
        }),
        PROXY_DATA_IN == 0x00002add_0000_1000_8000_00805f9b34fb,
        BATTERY_LEVEL == 0x00002a19_0000_1000_8000_00805f9b34fb,
{
}

/// A scan looks for the address of the hub and for the addresses of all lights, in lower case with
/// colons, and for the hub's name in lower case.
pub proof fn law_scan_targets(session: Session)
    ensures
        ({
            let t = scan_target_of(session);
            &&& t.hub_name == lowercase(session.relay_hub)
            &&& t.hub_addr == colons(lowercase(session.relay_hub))
            &&& t.macs.len() == session.lights.len()
            &&& forall|i: int|
                0 <= i < session.lights.len() ==> #[trigger] t.macs[i] == colons(
                    lowercase(session.lights[i].mac),
                )
        }),
{
}

/// What contracts know of a message on its way and of what is done next is all of it: two of one
/// view are alike in every part.
pub proof fn law_views_of_jobs(a: SendJob, b: SendJob, x: SendAction, y: SendAction)
    ensures
        a@ == b@ ==> {
            &&& a.dst == b.dst && a.opcode == b.opcode && a.params@ == b.params@
            &&& a.retries == b.retries && a.iv_index == b.iv_index && a.attempt == b.attempt
        },
        x@ == y@ ==> {
            &&& x is Done <==> y is Done
            &&& x is Abort <==> y is Abort
            &&& x matches SendAction::Abort(e) ==> y == SendAction::Abort(e)
            &&& x matches SendAction::Write { pause_ms, pdu, timeout_ms } ==> (y matches
                SendAction::Write { pause_ms: p, pdu: q, timeout_ms: t } && p == pause_ms && q@
                == pdu@ && t == timeout_ms)
        },
        a@.dst == a.dst && a@.opcode == a.opcode && a@.params == a.params@,
        a@.retries == a.retries && a@.iv_index == a.iv_index && a@.attempt == a.attempt,
        x is Done <==> x@ is Done,
        x is Abort <==> x@ is Abort,
        x matches SendAction::Write { pause_ms, pdu, timeout_ms } ==> x@ == (ActionView::Write {
            pause_ms,
            pdu: pdu@,
            timeout_ms,
        }),
{
}

/// Which messages fit: with the opcode, the destination, the key identifier and the check value
/// there are at most 65535 bytes to encrypt.
pub proof fn law_what_fits(job: JobView)
    ensures
        job.opcode % 256 < 0x80 ==> (job.fits() <==> 1 + job.params.len() + 4 + 3 <= 65535),
        0x80 <= job.opcode % 256 < 0xc0 ==> (job.fits() <==> 2 + job.params.len() + 4 + 3 <= 65535),
        0xc0 <= job.opcode % 256 ==> (job.fits() <==> 3 + job.params.len() + 4 + 3 <= 65535),
{
}

} // verus!
