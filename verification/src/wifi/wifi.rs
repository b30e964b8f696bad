//! Station-mode policy: where wpa_supplicant's control sockets live, and
//! the exact `SET_NETWORK` dialogue that joining a network takes. The
//! dialogue is produced as a list of steps; the daemon plays them against
//! an already-running wpa_supplicant, stopping at the first step that
//! fails.

use crate::errors::{parse_err, ErrKind, NetworkError};
use crate::security::validation::{
    byte_len, passphrase_len_ok, quoted_value_ok, ssid_chars_ok, ssid_len_ok, validate_cert_path,
    validate_quoted_value, validate_ssid, validate_wpa_passphrase,
};
use crate::text::{join_path, path_join, to_upper, upper_string};
use crate::wifi::security::{key_mgmt_spec, SecurityType};
use vstd::prelude::*;

verus! {

/// Where control sockets live when `init` was never called.
pub const DEFAULT_CTRL_DIR: &'static str = "/run/mitos-network/wpa";

/// The wpa_supplicant control-socket directory (`wireless.ctrl-interface-dir`
/// from the config). It can be set once; later settings are ignored.
#[derive(Debug, Clone)]
pub struct WifiContext {
    pub ctrl_dir: Option<String>,
}

impl WifiContext {
    pub fn new() -> (c: WifiContext)
        ensures
            c.ctrl_dir is None,
    {
        WifiContext { ctrl_dir: None }
    }

    /// The directory in effect.
    pub open spec fn dir(self) -> Seq<char> {
        match self.ctrl_dir {
            Some(d) => d@,
            None => DEFAULT_CTRL_DIR@,
        }
    }

    /// Records the control-socket directory; only the first call counts.
    pub fn init(&mut self, ctrl_dir: &str)
        ensures
            old(self).ctrl_dir is Some ==> final(self).dir() == old(self).dir(),
            old(self).ctrl_dir is None ==> final(self).dir() == ctrl_dir@,
            final(self).ctrl_dir is Some,
    {
        if self.ctrl_dir.is_none() {
            self.ctrl_dir = Some(String::from_str(ctrl_dir));
        }
    }

    /// The control-socket directory in effect.
    pub fn ctrl_socket_dir(&self) -> (d: String)
        ensures
            d@ == self.dir(),
    {
        match &self.ctrl_dir {
            Some(d) => d.clone(),
            None => String::from_str(DEFAULT_CTRL_DIR),
        }
    }

    /// Where wpa_supplicant creates its control socket for `ifname`.
    pub fn ctrl_socket_path(&self, ifname: &str) -> (p: String)
        ensures
            p@ == path_join(self.dir(), ifname@),
    {
        match &self.ctrl_dir {
            Some(d) => join_path(d.as_str(), ifname),
            None => join_path(DEFAULT_CTRL_DIR, ifname),
        }
    }
}

/// 802.1X (Enterprise) settings, already resolved from the profile and the
/// secrets store.
#[derive(Debug, Clone, Default)]
pub struct EapConfig {
    pub identity: Option<String>,
    pub ca_cert_path: Option<String>,
    pub client_cert_path: Option<String>,
    pub private_key_path: Option<String>,
    pub private_key_password: Option<String>,
    /// Pinned outer EAP method (`PEAP`, `TTLS`, `TLS`, ...).
    pub eap_method: Option<String>,
    /// Pinned inner method for tunneled EAP, e.g. `auth=MSCHAPV2`.
    pub eap_phase2: Option<String>,
}

/// One step of configuring a network in wpa_supplicant.
#[derive(Debug, Clone)]
pub enum WpaStep {
    /// `SET_NETWORK <id> <field> "<value>"`.
    SetQuoted(&'static str, String),
    /// `SET_NETWORK <id> <field> <value>`.
    SetRaw(&'static str, String),
    /// Fail with a configuration error unless the file can be opened.
    CheckReadable(String),
    /// Log a warning and go on.
    Warn(String),
    /// Stop with this error.
    Fail(NetworkError),
}

pub enum StepView {
    SetQuoted(Seq<char>, Seq<char>),
    SetRaw(Seq<char>, Seq<char>),
    CheckReadable(Seq<char>),
    Warn(Seq<char>),
    Fail((ErrKind, Seq<char>)),
}

impl WpaStep {
    pub open spec fn view(self) -> StepView {
        match self {
            WpaStep::SetQuoted(f, v) => StepView::SetQuoted(f@, v@),
            WpaStep::SetRaw(f, v) => StepView::SetRaw(f@, v@),
            WpaStep::CheckReadable(p) => StepView::CheckReadable(p@),
            WpaStep::Warn(m) => StepView::Warn(m@),
            WpaStep::Fail(e) => StepView::Fail(e.view()),
        }
    }
}

pub open spec fn step_views(v: Seq<WpaStep>) -> Seq<StepView> {
    v.map_values(|s: WpaStep| s.view())
}

pub open spec fn opt_view(o: Option<String>) -> Option<Seq<char>> {
    match o {
        Some(s) => Some(s@),
        None => None,
    }
}

/// Whether a list of steps ends in a failure.
pub open spec fn failed(a: Seq<StepView>) -> bool {
    a.len() > 0 && a.last() is Fail
}

/// `a` followed by `b`, unless `a` already failed.
pub open spec fn then(a: Seq<StepView>, b: Seq<StepView>) -> Seq<StepView> {
    if failed(a) {
        a
    } else {
        a + b
    }
}

pub open spec fn quote_msg(field: Seq<char>) -> Seq<char> {
    field + " may not contain a quote, backslash, or control character"@
}

/// The outcome of `validate_quoted_value(field, v)` as a failure step.
pub open spec fn quoted_check(field: Seq<char>, v: Seq<char>) -> Seq<StepView> {
    if quoted_value_ok(v) {
        seq![]
    } else {
        seq![StepView::Fail((ErrKind::Wifi, quote_msg(field)))]
    }
}

/// The outcome of `validate_cert_path(field, p)` as a failure step.
pub open spec fn cert_check(field: Seq<char>, p: Seq<char>) -> Seq<StepView> {
    if !(p.len() > 0 && p[0] == '/') {
        seq![StepView::Fail((ErrKind::Config, field + " must be an absolute path"@))]
    } else {
        quoted_check(field, p)
    }
}

/// A certificate or key file: validated, checked readable, then set.
pub open spec fn cert_steps(field: Seq<char>, p: Seq<char>, key: Seq<char>) -> Seq<StepView> {
    then(cert_check(field, p), seq![StepView::CheckReadable(p), StepView::SetQuoted(key, p)])
}

pub open spec fn no_eap_msg(ssid: Seq<char>) -> Seq<char> {
    "'"@ + ssid
        + "' is an Enterprise network but no EAP identity/certificate configuration was provided"@
}

pub open spec fn no_identity_msg(ssid: Seq<char>) -> Seq<char> {
    "'"@ + ssid + "' is an Enterprise network but no EAP identity (username) was configured"@
}

pub open spec fn no_secret_msg(ssid: Seq<char>) -> Seq<char> {
    "'"@ + ssid + "' needs either a password or a client certificate for Enterprise auth"@
}

pub open spec fn no_ca_msg(ssid: Seq<char>) -> Seq<char> {
    "connecting to Enterprise network '"@ + ssid
        + "' with no CA certificate configured -- the server's identity will not be validated"@
}

pub open spec fn no_psk_msg(ssid: Seq<char>) -> Seq<char> {
    "'"@ + ssid + "' requires a passphrase but none was provided/stored"@
}

/// Pinning the outer EAP method.
pub open spec fn method_stage(eap: EapConfig) -> Seq<StepView> {
    match opt_view(eap.eap_method) {
        Some(m) => then(quoted_check("EAP method"@, m), seq![StepView::SetRaw("eap"@, to_upper(m))]),
        None => seq![],
    }
}

/// Pinning the inner (phase 2) method.
pub open spec fn phase2_stage(eap: EapConfig) -> Seq<StepView> {
    match opt_view(eap.eap_phase2) {
        Some(p) => then(quoted_check("EAP phase2"@, p), seq![StepView::SetQuoted("phase2"@, p)]),
        None => seq![],
    }
}

/// The password; without one a client certificate is required.
pub open spec fn password_stage(ssid: Seq<char>, eap: EapConfig, password: Option<Seq<char>>) -> Seq<
    StepView,
> {
    match password {
        Some(pass) => seq![StepView::SetQuoted("password"@, pass)],
        None => if eap.client_cert_path is None {
            seq![StepView::Fail((ErrKind::Wifi, no_secret_msg(ssid)))]
        } else {
            seq![]
        },
    }
}

/// The CA certificate, or a warning that the server goes unauthenticated.
pub open spec fn ca_stage(ssid: Seq<char>, eap: EapConfig) -> Seq<StepView> {
    match opt_view(eap.ca_cert_path) {
        Some(ca) => cert_steps("CA certificate path"@, ca, "ca_cert"@),
        None => seq![StepView::Warn(no_ca_msg(ssid))],
    }
}

/// The client certificate.
pub open spec fn client_stage(eap: EapConfig) -> Seq<StepView> {
    match opt_view(eap.client_cert_path) {
        Some(c) => cert_steps("client certificate path"@, c, "client_cert"@),
        None => seq![],
    }
}

/// The private key and its password.
pub open spec fn key_stage(eap: EapConfig) -> Seq<StepView> {
    match opt_view(eap.private_key_path) {
        Some(k) => then(
            cert_steps("private key path"@, k, "private_key"@),
            match opt_view(eap.private_key_password) {
                Some(kp) => seq![StepView::SetQuoted("private_key_passwd"@, kp)],
                None => seq![],
            },
        ),
        None => seq![],
    }
}

/// The 802.1X part of the dialogue: identity, pinned methods, password or
/// client certificate, CA certificate (or a warning without one), client
/// certificate and private key, stopping at the first failure.
pub open spec fn eap_steps(ssid: Seq<char>, eap: EapConfig, password: Option<Seq<char>>) -> Seq<
    StepView,
> {
    match opt_view(eap.identity) {
        None => seq![StepView::Fail((ErrKind::Wifi, no_identity_msg(ssid)))],
        Some(identity) => then(
            seq![StepView::SetQuoted("identity"@, identity)],
            then(
                method_stage(eap),
                then(
                    phase2_stage(eap),
                    then(
                        password_stage(ssid, eap, password),
                        then(ca_stage(ssid, eap), then(client_stage(eap), key_stage(eap))),
                    ),
                ),
            ),
        ),
    }
}

/// The outcome of `validate_wpa_passphrase` as a failure step.
pub open spec fn psk_check(pass: &str) -> Seq<StepView> {
    if !passphrase_len_ok(pass) {
        seq![StepView::Fail((ErrKind::Parse, "WPA passphrase must be 8-63 characters"@))]
    } else if !pass.is_ascii() {
        seq![StepView::Fail((ErrKind::Parse, "WPA passphrase must be ASCII"@))]
    } else {
        seq![]
    }
}

/// The whole dialogue for a freshly added network: SSID and key
/// management, then the Enterprise settings or the pre-shared key.
pub open spec fn connect_steps_spec(
    ssid: Seq<char>,
    security: SecurityType,
    passphrase: Option<&str>,
    eap: Option<EapConfig>,
) -> Seq<StepView> {
    seq![StepView::SetQuoted("ssid"@, ssid), StepView::SetRaw("key_mgmt"@, key_mgmt_spec(security))]
        + if security == SecurityType::WpaEnterprise || security == SecurityType::Wpa3Enterprise {
        match eap {
            None => seq![StepView::Fail((ErrKind::Wifi, no_eap_msg(ssid)))],
            Some(e) => eap_steps(
                ssid,
                e,
                match passphrase {
                    Some(p) => Some(p@),
                    None => None,
                },
            ),
        }
    } else if security == SecurityType::Open {
        seq![]
    } else {
        match passphrase {
            Some(p) => then(psk_check(p), seq![StepView::SetQuoted("psk"@, p@)]),
            None => seq![StepView::Fail((ErrKind::Wifi, no_psk_msg(ssid)))],
        }
    }
}

fn msg3(a: &str, b: &str, c: &str) -> (r: String)
    ensures
        r@ == a@ + b@ + c@,
{
    crate::errors::join3(a, b, c)
}

/// Appends the steps of a certificate/key file; returns whether it failed.
fn push_cert(out: &mut Vec<WpaStep>, field: &'static str, path: &String, key: &'static str) -> (failed_now: bool)
    ensures
        step_views(final(out)@) == step_views(old(out)@) + cert_steps(field@, path@, key@),
        failed_now == failed(cert_steps(field@, path@, key@)),
        !failed_now ==> cert_steps(field@, path@, key@).len() > 0 && !failed(
            cert_steps(field@, path@, key@),
        ),
{
    let ghost before = step_views(out@);
    match validate_cert_path(field, path.as_str()) {
        Err(e) => {
            out.push(WpaStep::Fail(e));
            proof {
                assert(step_views(out@) =~= before + cert_steps(field@, path@, key@));
            }
            true
        },
        Ok(()) => {
            out.push(WpaStep::CheckReadable(path.clone()));
            out.push(WpaStep::SetQuoted(key, path.clone()));
            proof {
                assert(step_views(out@) =~= before + cert_steps(field@, path@, key@));
            }
            false
        },
    }
}

proof fn lemma_then_assoc(a: Seq<StepView>, b: Seq<StepView>, c: Seq<StepView>)
    requires
        !failed(a),
    ensures
        a + then(b, c) == then(a + b, c),
        failed(a + b) == (failed(b) || (b.len() == 0 && failed(a))),
{
    if b.len() == 0 {
        assert(a + b =~= a);
        assert(a + then(b, c) =~= a + c);
    } else {
        assert((a + b).last() == b.last());
        if !failed(b) {
            assert(a + (b + c) =~= (a + b) + c);
        }
    }
}

/// Appends `stage` to `out`, and whether that made `out` fail.
spec fn appended(old_out: Seq<WpaStep>, new_out: Seq<WpaStep>, stage: Seq<StepView>, f: bool) -> bool {
    &&& step_views(new_out) == step_views(old_out) + stage
    &&& f == failed(stage)
}

fn push_method(out: &mut Vec<WpaStep>, eap: &EapConfig) -> (f: bool)
    ensures
        appended(old(out)@, final(out)@, method_stage(*eap), f),
{
    let ghost before = step_views(out@);
    if let Some(m) = &eap.eap_method {
        match validate_quoted_value("EAP method", m.as_str()) {
            Err(e) => {
                out.push(WpaStep::Fail(e));
                assert(step_views(out@) =~= before + method_stage(*eap));
                return true;
            },
            Ok(()) => {
                out.push(WpaStep::SetRaw("eap", upper_string(m.as_str())));
                assert(step_views(out@) =~= before + method_stage(*eap));
                return false;
            },
        }
    }
    assert(step_views(out@) =~= before + method_stage(*eap));
    false
}

fn push_phase2(out: &mut Vec<WpaStep>, eap: &EapConfig) -> (f: bool)
    ensures
        appended(old(out)@, final(out)@, phase2_stage(*eap), f),
{
    let ghost before = step_views(out@);
    if let Some(p) = &eap.eap_phase2 {
        match validate_quoted_value("EAP phase2", p.as_str()) {
            Err(e) => {
                out.push(WpaStep::Fail(e));
                assert(step_views(out@) =~= before + phase2_stage(*eap));
                return true;
            },
            Ok(()) => {
                out.push(WpaStep::SetQuoted("phase2", p.clone()));
                assert(step_views(out@) =~= before + phase2_stage(*eap));
                return false;
            },
        }
    }
    assert(step_views(out@) =~= before + phase2_stage(*eap));
    false
}

fn push_password(out: &mut Vec<WpaStep>, ssid: &str, eap: &EapConfig, password: Option<&str>) -> (f: bool)
    ensures
        appended(
            old(out)@,
            final(out)@,
            password_stage(
                ssid@,
                *eap,
                match password {
                    Some(p) => Some(p@),
                    None => None,
                },
            ),
            f,
        ),
{
    let ghost before = step_views(out@);
    let ghost pw = match password {
        Some(p) => Some(p@),
        None => None::<Seq<char>>,
    };
    match password {
        Some(pass) => {
            out.push(WpaStep::SetQuoted("password", String::from_str(pass)));
            assert(step_views(out@) =~= before + password_stage(ssid@, *eap, pw));
            false
        },
        None => {
            if eap.client_cert_path.is_none() {
                out.push(
                    WpaStep::Fail(
                        NetworkError::Wifi(
                            msg3(
                                "'",
                                ssid,
                                "' needs either a password or a client certificate for Enterprise auth",
                            ),
                        ),
                    ),
                );
                assert(step_views(out@) =~= before + password_stage(ssid@, *eap, pw));
                true
            } else {
                assert(step_views(out@) =~= before + password_stage(ssid@, *eap, pw));
                false
            }
        },
    }
}

fn push_ca(out: &mut Vec<WpaStep>, ssid: &str, eap: &EapConfig) -> (f: bool)
    ensures
        appended(old(out)@, final(out)@, ca_stage(ssid@, *eap), f),
{
    let ghost before = step_views(out@);
    match &eap.ca_cert_path {
        Some(ca) => push_cert(out, "CA certificate path", ca, "ca_cert"),
        None => {
            out.push(
                WpaStep::Warn(
                    msg3(
                        "connecting to Enterprise network '",
                        ssid,
                        "' with no CA certificate configured -- the server's identity will not be validated",
                    ),
                ),
            );
            assert(step_views(out@) =~= before + ca_stage(ssid@, *eap));
            false
        },
    }
}

fn push_client(out: &mut Vec<WpaStep>, eap: &EapConfig) -> (f: bool)
    ensures
        appended(old(out)@, final(out)@, client_stage(*eap), f),
{
    let ghost before = step_views(out@);
    match &eap.client_cert_path {
        Some(c) => push_cert(out, "client certificate path", c, "client_cert"),
        None => {
            assert(step_views(out@) =~= before + client_stage(*eap));
            false
        },
    }
}

fn push_key(out: &mut Vec<WpaStep>, eap: &EapConfig) -> (f: bool)
    ensures
        appended(old(out)@, final(out)@, key_stage(*eap), f),
{
    let ghost before = step_views(out@);
    match &eap.private_key_path {
        Some(k) => {
            let ghost kp_steps: Seq<StepView> = match opt_view(eap.private_key_password) {
                Some(kp) => seq![StepView::SetQuoted("private_key_passwd"@, kp)],
                None => seq![],
            };
            let ghost cs = cert_steps("private key path"@, k@, "private_key"@);
            if push_cert(out, "private key path", k, "private_key") {
                return true;
            }
            let ghost mid = step_views(out@);
            if let Some(kp) = &eap.private_key_password {
                out.push(WpaStep::SetQuoted("private_key_passwd", kp.clone()));
            }
            proof {
                assert(step_views(out@) =~= mid + kp_steps);
                assert(then(cs, kp_steps) == cs + kp_steps);
                assert(step_views(out@) =~= before + key_stage(*eap));
                if kp_steps.len() > 0 {
                    assert((cs + kp_steps).last() == kp_steps.last());
                } else {
                    assert(cs + kp_steps =~= cs);
                }
            }
            false
        },
        None => {
            assert(step_views(out@) =~= before + key_stage(*eap));
            false
        },
    }
}

/// The 802.1X part of the dialogue for network `ssid`.
pub fn configure_eap(ssid: &str, eap: &EapConfig, password: Option<&str>) -> (steps: Vec<WpaStep>)
    ensures
        step_views(steps@) == eap_steps(
            ssid@,
            *eap,
            match password {
                Some(p) => Some(p@),
                None => None,
            },
        ),
{
    let ghost pw = match password {
        Some(p) => Some(p@),
        None => None::<Seq<char>>,
    };
    let mut out: Vec<WpaStep> = Vec::new();
    let identity = match &eap.identity {
        Some(i) => i,
        None => {
            out.push(
                WpaStep::Fail(
                    NetworkError::Wifi(
                        msg3(
                            "'",
                            ssid,
                            "' is an Enterprise network but no EAP identity (username) was configured",
                        ),
                    ),
                ),
            );
            assert(step_views(out@) =~= eap_steps(ssid@, *eap, pw));
            return out;
        },
    };
    out.push(WpaStep::SetQuoted("identity", identity.clone()));
    let ghost r6 = key_stage(*eap);
    let ghost r5 = then(client_stage(*eap), r6);
    let ghost r4 = then(ca_stage(ssid@, *eap), r5);
    let ghost r3 = then(password_stage(ssid@, *eap, pw), r4);
    let ghost r2 = then(phase2_stage(*eap), r3);
    let ghost r1 = then(method_stage(*eap), r2);
    let ghost full = eap_steps(ssid@, *eap, pw);
    proof {
        assert(step_views(out@) =~= seq![StepView::SetQuoted("identity"@, identity@)]);
        assert(full == then(step_views(out@), r1));
    }
    let ghost o = step_views(out@);
    let f = push_method(&mut out, eap);
    proof {
        lemma_then_assoc(o, method_stage(*eap), r2);
    }
    if f {
        return out;
    }
    let ghost o = step_views(out@);
    let f = push_phase2(&mut out, eap);
    proof {
        lemma_then_assoc(o, phase2_stage(*eap), r3);
    }
    if f {
        return out;
    }
    let ghost o = step_views(out@);
    let f = push_password(&mut out, ssid, eap, password);
    proof {
        lemma_then_assoc(o, password_stage(ssid@, *eap, pw), r4);
    }
    if f {
        return out;
    }
    let ghost o = step_views(out@);
    let f = push_ca(&mut out, ssid, eap);
    proof {
        lemma_then_assoc(o, ca_stage(ssid@, *eap), r5);
    }
    if f {
        return out;
    }
    let ghost o = step_views(out@);
    let f = push_client(&mut out, eap);
    proof {
        lemma_then_assoc(o, client_stage(*eap), r6);
    }
    if f {
        return out;
    }
    let ghost o = step_views(out@);
    let f = push_key(&mut out, eap);
    proof {
        if !failed(key_stage(*eap)) {
            if key_stage(*eap).len() == 0 {
                assert(o + key_stage(*eap) =~= o);
            }
        }
    }
    out
}

/// The dialogue for a freshly added network `ssid`: SSID and key
/// management, then the Enterprise settings or the pre-shared key.
pub fn connect_steps(
    ssid: &str,
    security: SecurityType,
    passphrase: Option<&str>,
    eap: Option<&EapConfig>,
) -> (steps: Vec<WpaStep>)
    ensures
        step_views(steps@) == connect_steps_spec(
            ssid@,
            security,
            passphrase,
            match eap {
                Some(e) => Some(*e),
                None => None,
            },
        ),
{
    let mut out: Vec<WpaStep> = Vec::new();
    out.push(WpaStep::SetQuoted("ssid", String::from_str(ssid)));
    out.push(WpaStep::SetRaw("key_mgmt", String::from_str(security.key_mgmt())));
    let ghost head = step_views(out@);
    assert(head =~= seq![StepView::SetQuoted("ssid"@, ssid@), StepView::SetRaw("key_mgmt"@, key_mgmt_spec(security))]);
    if security.is_enterprise() {
        match eap {
            None => {
                out.push(
                    WpaStep::Fail(
                        NetworkError::Wifi(
                            msg3(
                                "'",
                                ssid,
                                "' is an Enterprise network but no EAP identity/certificate configuration was provided",
                            ),
                        ),
                    ),
                );
            },
            Some(e) => {
                let more = configure_eap(ssid, e, passphrase);
                let mut more = more;
                out.append(&mut more);
            },
        }
    } else if security.needs_passphrase() {
        match passphrase {
            Some(pass) => match validate_wpa_passphrase(pass) {
                Err(e) => {
                    out.push(WpaStep::Fail(e));
                },
                Ok(()) => {
                    out.push(WpaStep::SetQuoted("psk", String::from_str(pass)));
                },
            },
            None => {
                out.push(
                    WpaStep::Fail(
                        NetworkError::Wifi(
                            msg3("'", ssid, "' requires a passphrase but none was provided/stored"),
                        ),
                    ),
                );
            },
        }
    }
    proof {
        assert(step_views(out@) =~= connect_steps_spec(
            ssid@,
            security,
            passphrase,
            match eap {
                Some(e) => Some(*e),
                None => None,
            },
        ));
    }
    out
}

/// Joining `ssid`: the SSID is checked before anything is said to
/// wpa_supplicant; then come the steps that configure the fresh network
/// entry, and the network is enabled and selected afterwards (the `bool`)
/// only when none of those steps fails.
pub fn join_plan(
    ssid: &str,
    security: SecurityType,
    passphrase: Option<&str>,
    eap: Option<&EapConfig>,
) -> (r: Result<(Vec<WpaStep>, bool), NetworkError>)
    ensures
        !ssid_len_ok(ssid) ==> parse_err(r, "SSID must be 1-32 bytes"@),
        ssid_len_ok(ssid) && !ssid_chars_ok(ssid@) ==> parse_err(r, "SSID contains invalid characters"@),
        ssid_len_ok(ssid) && ssid_chars_ok(ssid@) ==> (r matches Ok(p) && step_views(p.0@)
            == connect_steps_spec(
            ssid@,
            security,
            passphrase,
            match eap {
                Some(e) => Some(*e),
                None => None,
            },
        ) && p.1 == !failed(step_views(p.0@))),
{
    match validate_ssid(ssid) {
        Ok(()) => {},
        Err(e) => return Err(e),
    }
    let steps = connect_steps(ssid, security, passphrase, eap);
    let n = steps.len();
    let activate = if n == 0 {
        true
    } else {
        match &steps[n - 1] {
            WpaStep::Fail(_) => false,
            _ => true,
        }
    };
    proof {
        if n > 0 {
            assert(step_views(steps@).last() == steps@[n - 1].view());
        }
    }
    Ok((steps, activate))
}

} // verus!

verus! {

/// Ids of the configured networks whose SSID (quotes stripped) is `ssid`:
/// the stale entries that joining or forgetting `ssid` removes.
pub open spec fn stale_ids(networks: Seq<(u32, Seq<char>)>, ssid: Seq<char>) -> Seq<u32>
    decreases networks.len(),
{
    if networks.len() == 0 {
        seq![]
    } else {
        let prev = stale_ids(networks.drop_last(), ssid);
        if crate::text::trim_char(networks.last().1, '"') == ssid {
            prev.push(networks.last().0)
        } else {
            prev
        }
    }
}

pub fn stale_network_ids(networks: &Vec<(u32, String)>, ssid: &str) -> (ids: Vec<u32>)
    ensures
        ids@ == stale_ids(crate::wifi::wpa::id_views(networks@), ssid@),
{
    let ghost all = crate::wifi::wpa::id_views(networks@);
    let mut ids: Vec<u32> = Vec::new();
    let mut i: usize = 0;
    while i < networks.len()
        invariant
            i <= networks.len(),
            all == crate::wifi::wpa::id_views(networks@),
            ids@ == stale_ids(all.subrange(0, i as int), ssid@),
        decreases networks.len() - i,
    {
        assert(all.subrange(0, i + 1).drop_last() =~= all.subrange(0, i as int));
        let t = crate::text::trim_char_string(networks[i].1.as_str(), '"');
        if crate::text::str_eq(t.as_str(), ssid) {
            ids.push(networks[i].0);
        }
        i += 1;
    }
    assert(all.subrange(0, networks.len() as int) =~= all);
    ids
}

/// Association with `ssid` is complete: `wpa_state` is `COMPLETED` and the
/// current SSID is `ssid` (a missing field counts as empty).
pub open spec fn associated(status: Seq<(Seq<char>, Seq<char>)>, ssid: Seq<char>) -> bool {
    crate::wifi::wpa::lookup_spec(status, "wpa_state"@) == Some("COMPLETED"@) && match crate::wifi::wpa::lookup_spec(
        status,
        "ssid"@,
    ) {
        Some(s) => s == ssid,
        None => ssid.len() == 0,
    }
}

pub fn is_associated(status: &Vec<(String, String)>, ssid: &str) -> (r: bool)
    ensures
        r == associated(crate::wifi::wpa::pair_views(status@), ssid@),
{
    let state = crate::wifi::wpa::lookup(status, "wpa_state");
    let current = crate::wifi::wpa::lookup(status, "ssid");
    let state_ok = match &state {
        Some(s) => crate::text::str_eq(s.as_str(), "COMPLETED"),
        None => false,
    };
    let ssid_ok = match &current {
        Some(s) => crate::text::str_eq(s.as_str(), ssid),
        None => crate::text::chars_of(ssid).len() == 0,
    };
    proof {
        reveal_strlit("COMPLETED");
    }
    state_ok && ssid_ok
}

/// The error when association with `ssid` did not complete in time; `state`
/// is the last `wpa_state` seen (empty if none).
pub fn association_timeout(ssid: &str, state: &str) -> (e: NetworkError)
    ensures
        e.view() == (
            ErrKind::Timeout,
            "association with '"@ + ssid@ + "' did not complete (last state: "@ + state@ + ")"@,
        ),
{
    let mut m = crate::errors::join3("association with '", ssid, "' did not complete (last state: ");
    m.append(state);
    m.append(")");
    NetworkError::Timeout(m)
}

} // verus!
