//! Browser stealth profiles: fingerprints, evasion scripts, launch
//! arguments.
//!
//! A session picks one user-agent profile from a small pool of plausible
//! desktop fingerprints and keeps it for its lifetime. The launch-argument
//! builder turns the chosen stealth profile and fingerprint into the
//! browser's command line; the evasion scripts are fixed texts injected at
//! page load.

use vstd::prelude::*;
use vstd::string::StringExecFns;

use crate::text::{join_comma, spec_join_comma, spec_u32_string, u32_string};

verus! {

/// Levels of stealth applied to the browser session.
#[derive(Debug, Clone, Copy, PartialEq, Eq, Structural)]
pub enum StealthProfile {
    Lightweight,
    Balanced,
    Maximum,
}

/// Snapshot of user agent, viewport, and locale characteristics.
#[derive(Debug)]
pub struct UserAgentProfile {
    pub user_agent: String,
    pub viewport: (u32, u32),
    pub platform: String,
    pub languages: Vec<String>,
    pub timezone: String,
}

/// Both profiles describe the same fingerprint, field by field.
pub open spec fn profile_like(a: &UserAgentProfile, b: &UserAgentProfile) -> bool {
    &&& a.user_agent == b.user_agent
    &&& a.viewport == b.viewport
    &&& a.platform == b.platform
    &&& a.languages@ == b.languages@
    &&& a.timezone == b.timezone
}

/// Copy a profile field by field.
fn clone_profile(p: &UserAgentProfile) -> (r: UserAgentProfile)
    ensures
        profile_like(&r, p),
{
    let mut languages: Vec<String> = Vec::new();
    let n = p.languages.len();
    let mut i: usize = 0;
    while i < n
        invariant
            0 <= i <= n,
            n == p.languages@.len(),
            languages@ == p.languages@.take(i as int),
        decreases n - i,
    {
        languages.push(p.languages[i].clone());
        proof {
            assert(languages@ =~= p.languages@.take(i + 1));
        }
        i = i + 1;
    }
    proof {
        assert(p.languages@.take(n as int) =~= p.languages@);
    }
    let r = UserAgentProfile {
        user_agent: p.user_agent.clone(),
        viewport: p.viewport,
        platform: p.platform.clone(),
        languages,
        timezone: p.timezone.clone(),
    };
    r
}

/// Relies on rand's thread-local generator: some index below the bound;
/// nothing more is promised of a random draw.
#[verifier::external_body]
fn random_below(n: usize) -> (r: usize)
    requires
        n > 0,
    ensures
        r < n,
{
    rand::Rng::gen_range(&mut rand::thread_rng(), 0..n)
}

/// Maintains a small pool of plausible desktop fingerprint profiles, and
/// the one chosen for the current session.
#[derive(Debug)]
pub struct UserAgentManager {
    desktop_profiles: Vec<UserAgentProfile>,
    current_session_profile: Option<UserAgentProfile>,
}

impl UserAgentManager {
    /// The pool of desktop profiles.
    pub closed spec fn profiles(&self) -> Seq<UserAgentProfile> {
        self.desktop_profiles@
    }

    /// The profile chosen for this session, once one is chosen.
    pub closed spec fn session_profile(&self) -> Option<UserAgentProfile> {
        self.current_session_profile
    }

    /// The pool is never empty.
    pub open spec fn wf(&self) -> bool {
        self.profiles().len() > 0
    }

    /// Create a manager with the built-in desktop profiles and no session
    /// profile chosen yet.
    pub fn new() -> (r: UserAgentManager)
        ensures
            r.wf(),
            r.profiles().len() == 2,
            r.session_profile() is None,
            r.profiles()[0].viewport == (1920u32, 1080u32),
            r.profiles()[0].platform@ == "Win32"@,
            r.profiles()[0].timezone@ == "America/New_York"@,
            r.profiles()[1].viewport == (1440u32, 900u32),
            r.profiles()[1].platform@ == "MacIntel"@,
            r.profiles()[1].timezone@ == "America/Los_Angeles"@,
            forall|i: int|
                0 <= i < 2 ==> (#[trigger] r.profiles()[i]).languages@.map_values(|s: String| s@)
                    =~= seq!["en-US"@, "en"@],
    {
        let mut langs0: Vec<String> = Vec::new();
        langs0.push("en-US".to_owned());
        langs0.push("en".to_owned());
        let mut langs1: Vec<String> = Vec::new();
        langs1.push("en-US".to_owned());
        langs1.push("en".to_owned());
        let first = UserAgentProfile {
            user_agent:
                "Mozilla/5.0 (Windows NT 10.0; Win64; x64) AppleWebKit/537.36 (KHTML, like Gecko) Chrome/131.0.0.0 Safari/537.36".to_owned(),
            viewport: (1920, 1080),
            platform: "Win32".to_owned(),
            languages: langs0,
            timezone: "America/New_York".to_owned(),
        };
        let second = UserAgentProfile {
            user_agent:
                "Mozilla/5.0 (Macintosh; Intel Mac OS X 10_15_7) AppleWebKit/537.36 (KHTML, like Gecko) Chrome/131.0.0.0 Safari/537.36".to_owned(),
            viewport: (1440, 900),
            platform: "MacIntel".to_owned(),
            languages: langs1,
            timezone: "America/Los_Angeles".to_owned(),
        };
        let mut desktop_profiles: Vec<UserAgentProfile> = Vec::new();
        desktop_profiles.push(first);
        desktop_profiles.push(second);
        UserAgentManager { desktop_profiles, current_session_profile: None }
    }

    /// Get, choosing one first if none is chosen yet, the profile of the
    /// current session. The first call draws an arbitrary profile from the
    /// pool; every later call returns that same profile.
    pub fn get_session_profile(&mut self, level: &StealthProfile) -> (r: &UserAgentProfile)
        requires
            old(self).wf(),
        ensures
            final(self).wf(),
            final(self).profiles() == old(self).profiles(),
            final(self).session_profile() matches Some(p) && p == *r,
            old(self).session_profile() matches Some(q) ==> q == *r,
            old(self).session_profile() is None ==> exists|i: int|
                0 <= i < old(self).profiles().len() && profile_like(
                    r,
                    #[trigger] &old(self).profiles()[i],
                ),
    {
        let _ = level;
        if self.current_session_profile.is_none() {
            let n = self.desktop_profiles.len();
            let i = random_below(n);
            let p = clone_profile(&self.desktop_profiles[i]);
            proof {
                assert(profile_like(&p, &self.profiles()[i as int]));
            }
            self.current_session_profile = Some(p);
        }
        match &self.current_session_profile {
            Some(p) => p,
            None => {
                proof {
                    assert(false);
                }
                &self.desktop_profiles[0]
            },
        }
    }
}

/// Placeholder for more advanced, per-session fingerprint controls.
#[derive(Debug, Clone)]
pub struct FingerprintManager {}

impl FingerprintManager {
    /// Create a new fingerprint manager.
    pub fn new() -> FingerprintManager {
        FingerprintManager {  }
    }
}

/// Produces human-like delays and typing behavior to reduce automation
/// signals. The delays themselves are timer work and live in the shell.
#[derive(Debug, Clone)]
pub struct BehavioralEngine {}

impl BehavioralEngine {
    /// Create a new behavioral engine.
    pub fn new() -> BehavioralEngine {
        BehavioralEngine {  }
    }
}

/// Construct the browser's command-line arguments for a stealth profile
/// and fingerprint: the fixed hardening switches, then the user agent,
/// window size and language list of the fingerprint; the maximum profile
/// additionally disables the canvas accelerator.
pub fn build_stealth_arguments(profile: &StealthProfile, user_profile: &UserAgentProfile) -> (r:
    Vec<String>)
    ensures
        r@.len() == if *profile == StealthProfile::Maximum {
            12int
        } else {
            11int
        },
        r@[0]@ == "--disable-blink-features=AutomationControlled"@,
        r@[1]@ == "--disable-infobars"@,
        r@[2]@ == "--disable-dev-shm-usage"@,
        r@[3]@ == "--no-sandbox"@,
        r@[4]@ == "--disable-extensions-file-access-check"@,
        r@[5]@ == "--disable-extensions"@,
        r@[6]@ == "--disable-plugins-discovery"@,
        r@[7]@ == "--disable-web-security"@,
        r@[8]@ == "--user-agent="@ + user_profile.user_agent@,
        r@[9]@ == "--window-size="@ + spec_u32_string(user_profile.viewport.0) + ","@
            + spec_u32_string(user_profile.viewport.1),
        r@[10]@ == "--lang="@ + spec_join_comma(
            user_profile.languages@.map_values(|s: String| s@),
        ),
        *profile == StealthProfile::Maximum ==> r@[11]@ == "--disable-gpu"@,
{
    let mut args: Vec<String> = Vec::new();
    args.push("--disable-blink-features=AutomationControlled".to_owned());
    args.push("--disable-infobars".to_owned());
    args.push("--disable-dev-shm-usage".to_owned());
    args.push("--no-sandbox".to_owned());
    args.push("--disable-extensions-file-access-check".to_owned());
    args.push("--disable-extensions".to_owned());
    args.push("--disable-plugins-discovery".to_owned());
    args.push("--disable-web-security".to_owned());
    let mut agent = "--user-agent=".to_owned();
    agent.append(user_profile.user_agent.as_str());
    args.push(agent);
    let mut size = "--window-size=".to_owned();
    let w = u32_string(user_profile.viewport.0);
    size.append(w.as_str());
    size.append(",");
    let h = u32_string(user_profile.viewport.1);
    size.append(h.as_str());
    args.push(size);
    let mut lang = "--lang=".to_owned();
    let joined = join_comma(&user_profile.languages);
    lang.append(joined.as_str());
    args.push(lang);
    if let StealthProfile::Maximum = profile {
        args.push("--disable-gpu".to_owned());
    }
    args
}

/// The script hiding the automation flag, the plugin list, and the
/// language list, applied at page load.
pub const CORE_EVASIONS: &'static str = "
            Object.defineProperty(navigator, 'webdriver', { get: () => undefined });
            Object.defineProperty(navigator, 'plugins', { get: () => [1,2,3] });
            Object.defineProperty(navigator, 'languages', {
                get: () => ['en-US', 'en']
            });
            if (!window.chrome) window.chrome = { runtime: {} };
        ";

/// The script masking the graphics adapter's identity.
pub const WEBGL_EVASIONS: &'static str = "
            const getParameter = WebGLRenderingContext.prototype.getParameter;
            WebGLRenderingContext.prototype.getParameter = function(parameter) {
                if (parameter === 37445) return 'Intel Inc.';
                if (parameter === 37446) return 'Intel Iris OpenGL Engine';
                return getParameter.call(this, parameter);
            };
        ";

/// The script adding noise to canvas reads.
pub const CANVAS_EVASIONS: &'static str = "
            const getContext = HTMLCanvasElement.prototype.getContext;
            HTMLCanvasElement.prototype.getContext = function(type,...args){
                const ctx = getContext.call(this,type,...args);
                if(type==='2d' && ctx) {
                    const origToDataURL=this.toDataURL;
                    this.toDataURL=function(...a){
                        const imgdata=ctx.getImageData(0,0,this.width,this.height);
                        for(let i=0;i<imgdata.data.length;i+=4){
                            if(Math.random()<0.001)imgdata.data[i]+=Math.random()<0.5?-1:1;
                        }
                        ctx.putImageData(imgdata,0,0);
                        return origToDataURL.call(this,...a);
                    };
                }
                return ctx;
            };
        ";

/// JavaScript evasions applied at page load to reduce automation signals.
pub struct StealthScripts;

impl StealthScripts {
    /// The core evasion script.
    pub fn get_core_evasions() -> (r: &'static str)
        ensures
            r == CORE_EVASIONS,
    {
        CORE_EVASIONS
    }

    /// The graphics-adapter evasion script.
    pub fn get_webgl_evasions() -> (r: &'static str)
        ensures
            r == WEBGL_EVASIONS,
    {
        WEBGL_EVASIONS
    }

    /// The canvas evasion script.
    pub fn get_canvas_evasions() -> (r: &'static str)
        ensures
            r == CANVAS_EVASIONS,
    {
        CANVAS_EVASIONS
    }
}

} // verus!
