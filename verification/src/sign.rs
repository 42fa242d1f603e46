use vstd::prelude::*;
use crate::clock::{is_ymd_date, local_date_today};
use crate::config::UserinfoConfig;
use crate::text::{seq_contains, str_contains};

verus! {

/// Streak part of the daily mission: days in a row, credit for the streak, and a
/// marker string.
pub struct Tk {
    pub days: u32,
    pub credit: u32,
    pub bs: String,
}

/// The forum's record of the daily check-in mission.
pub struct Mission {
    pub date: String,
    pub credit: String,
    pub always: String,
    pub tk: Tk,
    pub my_credit: String,
    pub current_user: u32,
}

/// Reply of the mission endpoint.
pub struct GetUserMission {
    pub mission: Mission,
}

/// A mission reply read as plain values.
pub struct MissionView {
    pub date: Seq<char>,
    pub credit: Seq<char>,
    pub always: Seq<char>,
    pub tk_days: u32,
    pub tk_credit: u32,
    pub tk_bs: Seq<char>,
    pub my_credit: Seq<char>,
    pub current_user: u32,
}

impl View for GetUserMission {
    type V = MissionView;

    open spec fn view(&self) -> MissionView {
        MissionView {
            date: self.mission.date@,
            credit: self.mission.credit@,
            always: self.mission.always@,
            tk_days: self.mission.tk.days,
            tk_credit: self.mission.tk.credit,
            tk_bs: self.mission.tk.bs@,
            my_credit: self.mission.my_credit@,
            current_user: self.mission.current_user,
        }
    }
}

/// The mission of a reply that could not be read: every text empty, every number zero.
pub open spec fn empty_mission() -> MissionView {
    MissionView {
        date: Seq::empty(),
        credit: Seq::empty(),
        always: Seq::empty(),
        tk_days: 0,
        tk_credit: 0,
        tk_bs: Seq::empty(),
        my_credit: Seq::empty(),
        current_user: 0,
    }
}

impl Default for GetUserMission {
    fn default() -> (res: Self)
        ensures
            res@ == empty_mission(),
    {
        GetUserMission {
            mission: Mission {
                date: String::new(),
                credit: String::new(),
                always: String::new(),
                tk: Tk { days: 0, credit: 0, bs: String::new() },
                my_credit: String::new(),
                current_user: 0,
            },
        }
    }
}

impl Clone for Tk {
    fn clone(&self) -> (res: Self)
        ensures
            res == *self,
    {
        Tk { days: self.days, credit: self.credit, bs: self.bs.clone() }
    }
}

impl Clone for Mission {
    fn clone(&self) -> (res: Self)
        ensures
            res == *self,
    {
        Mission {
            date: self.date.clone(),
            credit: self.credit.clone(),
            always: self.always.clone(),
            tk: self.tk.clone(),
            my_credit: self.my_credit.clone(),
            current_user: self.current_user,
        }
    }
}

impl Clone for GetUserMission {
    fn clone(&self) -> (res: Self)
        ensures
            res == *self,
    {
        GetUserMission { mission: self.mission.clone() }
    }
}

/// What the check-in client learns from outside.
pub enum ZwEvent {
    /// A check-in round begins.
    Start,
    /// The check-in request came back with this body text, or could not be sent (`None`).
    SignInReply(Option<String>),
    /// A fresh b2_token was fetched through the browser, or none was found.
    TokenFetched(Option<String>),
    /// The mission request came back with a mission, or with a body that is not one (`None`).
    MissionReply(Option<GetUserMission>),
}

/// What the check-in client asks to be done next.
pub enum ZwAction {
    /// POST to the check-in endpoint with the token as bearer.
    PostSignIn { url: String, token: String },
    /// Fetch a fresh b2_token through the browser.
    FetchToken,
    /// POST to the mission endpoint with the token as bearer.
    PostMission { url: String, token: String },
    /// A request is due but there is no token to send with it; the step was not taken.
    MissingToken,
    /// Today's check-in is recorded; the round is over.
    Finished,
}

/// An action read as plain values.
pub enum ZwActionView {
    PostSignIn { url: Seq<char>, token: Seq<char> },
    FetchToken,
    PostMission { url: Seq<char>, token: Seq<char> },
    MissingToken,
    Finished,
}

impl View for ZwAction {
    type V = ZwActionView;

    open spec fn view(&self) -> ZwActionView {
        match self {
            ZwAction::PostSignIn { url, token } => ZwActionView::PostSignIn {
                url: url@,
                token: token@,
            },
            ZwAction::FetchToken => ZwActionView::FetchToken,
            ZwAction::PostMission { url, token } => ZwActionView::PostMission {
                url: url@,
                token: token@,
            },
            ZwAction::MissingToken => ZwActionView::MissingToken,
            ZwAction::Finished => ZwActionView::Finished,
        }
    }
}

/// The check-in client: its token, settings, and what it knows of today's mission.
pub struct Zw {
    pub b2_token: Option<String>,
    pub userinfo: UserinfoConfig,
    pub status: bool,
    pub credit: String,
    pub user_mission: GetUserMission,
}

impl Clone for Zw {
    fn clone(&self) -> (res: Self)
        ensures
            res == *self,
    {
        Zw {
            b2_token: match &self.b2_token {
                Some(t) => Some(t.clone()),
                None => None,
            },
            userinfo: self.userinfo.clone(),
            status: self.status,
            credit: self.credit.clone(),
            user_mission: self.user_mission.clone(),
        }
    }
}

impl Zw {
    /// The check-in request that is due, with the current token.
    pub open spec fn sign_in_request(self) -> ZwActionView {
        match self.b2_token {
            Some(t) => ZwActionView::PostSignIn { url: self.userinfo.url1@, token: t@ },
            None => ZwActionView::MissingToken,
        }
    }

    /// The mission request that is due, with the current token.
    pub open spec fn mission_request(self) -> ZwActionView {
        match self.b2_token {
            Some(t) => ZwActionView::PostMission { url: self.userinfo.url3@, token: t@ },
            None => ZwActionView::MissingToken,
        }
    }

    /// A step on this event with this date sends a request only if there is a token
    /// to send with it: every event that leads to a request finds one.
    pub open spec fn token_ready(self, event: ZwEvent, today: Seq<char>) -> bool {
        match event {
            ZwEvent::Start => self.checked_in(today) || self.b2_token is Some,
            ZwEvent::SignInReply(Some(_)) => self.b2_token is Some,
            ZwEvent::SignInReply(None) => true,
            ZwEvent::TokenFetched(token) => token is Some,
            ZwEvent::MissionReply(reply) => {
                let date = match reply {
                    Some(m) => m@.date,
                    None => Seq::<char>::empty(),
                };
                seq_contains(date, today) || self.b2_token is Some
            },
        }
    }

    /// Tells whether a step on this event with this date finds a token wherever it
    /// sends a request.
    pub fn is_token_ready(&self, event: &ZwEvent, today: &str) -> (res: bool)
        ensures
            res == self.token_ready(*event, today@),
            self.b2_token is Some ==> (res <==> !(*event matches ZwEvent::TokenFetched(None))),
    {
        match event {
            ZwEvent::Start => {
                let found = str_contains(self.user_mission.mission.date.as_str(), today);
                assert(found == self.checked_in(today@));
                let r = found || self.b2_token.is_some();
                assert(r == self.token_ready(*event, today@));
                r
            },
            ZwEvent::SignInReply(Some(_)) => self.b2_token.is_some(),
            ZwEvent::SignInReply(None) => true,
            ZwEvent::TokenFetched(token) => token.is_some(),
            ZwEvent::MissionReply(reply) => {
                let found = match reply {
                    Some(m) => str_contains(m.mission.date.as_str(), today),
                    None => str_contains("", today),
                };
                proof {
                    reveal_strlit("");
                    assert(""@ =~= Seq::<char>::empty());
                }
                let r = found || self.b2_token.is_some();
                assert(r == self.token_ready(*event, today@));
                r
            },
        }
    }

    /// Today's check-in is recorded in the mission that was last read.
    pub open spec fn checked_in(self, today: Seq<char>) -> bool {
        seq_contains(self.user_mission@.date, today)
    }

    /// A client with the given token and settings that knows nothing of today yet.
    pub fn new(b2_token: Option<String>, userinfo: UserinfoConfig) -> (res: Self)
        ensures
            res.b2_token == b2_token,
            res.userinfo == userinfo,
            !res.status,
            res.credit@ == Seq::<char>::empty(),
            res.user_mission@ == empty_mission(),
    {
        Zw {
            b2_token,
            userinfo,
            status: false,
            credit: String::new(),
            user_mission: GetUserMission::default(),
        }
    }

    /// Sets the status to whether the mission date contains `today`.
    pub fn check_status_on(&mut self, today: &str)
        ensures
            final(self).status == old(self).checked_in(today@),
            final(self).status <==> exists|i: int|
                0 <= i && i + today@.len() <= old(self).user_mission.mission.date@.len()
                    && #[trigger] old(self).user_mission.mission.date@.subrange(
                    i,
                    i + today@.len(),
                ) == today@,
            final(self).b2_token == old(self).b2_token,
            final(self).userinfo == old(self).userinfo,
            final(self).credit == old(self).credit,
            final(self).user_mission == old(self).user_mission,
    {
        self.status = str_contains(self.user_mission.mission.date.as_str(), today);
    }

    /// Sets the status to whether the mission date contains today's date, as the
    /// local clock gives it in `YYYY-MM-DD` form. Which date that is depends on the
    /// clock; `check_status_on` states the status for a given date.
    pub fn check_status(&mut self)
        ensures
            exists|today: Seq<char>|
                is_ymd_date(today) && final(self).status == old(self).checked_in(today),
            final(self).b2_token == old(self).b2_token,
            final(self).userinfo == old(self).userinfo,
            final(self).credit == old(self).credit,
            final(self).user_mission == old(self).user_mission,
    {
        let today = local_date_today();
        self.check_status_on(today.as_str());
        assert(is_ymd_date(today@) && self.status == old(self).checked_in(today@));
    }

    fn sign_in_action(&self) -> (res: ZwAction)
        ensures
            res@ == self.sign_in_request(),
    {
        match &self.b2_token {
            Some(t) => ZwAction::PostSignIn { url: self.userinfo.url1.clone(), token: t.clone() },
            None => ZwAction::MissingToken,
        }
    }

    fn mission_action(&self) -> (res: ZwAction)
        ensures
            res@ == self.mission_request(),
    {
        match &self.b2_token {
            Some(t) => ZwAction::PostMission { url: self.userinfo.url3.clone(), token: t.clone() },
            None => ZwAction::MissingToken,
        }
    }

    /// How one step relates the client before and after, the event, the date it
    /// took as today's, and the action it asked for.
    pub open spec fn next(self, after: Zw, event: ZwEvent, today: Seq<char>, action: ZwActionView) -> bool {
        &&& after.userinfo == self.userinfo
        &&& action is Finished ==> after.status
        &&& match event {
            ZwEvent::Start => {
                &&& after.b2_token == self.b2_token
                &&& after.credit == self.credit
                &&& after.user_mission == self.user_mission
                &&& after.status == self.checked_in(today)
                &&& action == (if after.status {
                    ZwActionView::Finished
                } else {
                    self.sign_in_request()
                })
            },
            ZwEvent::SignInReply(Some(text)) => {
                &&& after.b2_token == self.b2_token
                &&& after.credit == text
                &&& after.user_mission == self.user_mission
                &&& after.status == self.status
                &&& action == self.mission_request()
            },
            ZwEvent::SignInReply(None) => {
                &&& after == self
                &&& action == ZwActionView::FetchToken
            },
            ZwEvent::TokenFetched(token) => {
                &&& after.b2_token == token
                &&& after.credit == self.credit
                &&& after.user_mission == self.user_mission
                &&& after.status == self.status
                &&& action == after.mission_request()
            },
            ZwEvent::MissionReply(reply) => {
                &&& after.b2_token == self.b2_token
                &&& after.credit == self.credit
                &&& match reply {
                    Some(m) => after.user_mission == m,
                    None => after.user_mission@ == empty_mission(),
                }
                &&& after.status == after.checked_in(today)
                &&& action == (if after.status {
                    ZwActionView::Finished
                } else {
                    after.sign_in_request()
                })
            },
        }
    }

    /// Takes in what came from outside and says what to do next, with `today` as the
    /// local date in `YYYY-MM-DD` form for the status checks.
    pub fn step_on(&mut self, event: ZwEvent, today: &str) -> (res: ZwAction)
        requires
            old(self).token_ready(event, today@),
        ensures
            !(res@ is MissingToken),
            old(self).next(*final(self), event, today@, res@),
    {
        match event {
            ZwEvent::Start => {
                self.check_status_on(today);
                if self.status {
                    ZwAction::Finished
                } else {
                    self.sign_in_action()
                }
            },
            ZwEvent::SignInReply(Some(text)) => {
                self.credit = text;
                self.mission_action()
            },
            ZwEvent::SignInReply(None) => ZwAction::FetchToken,
            ZwEvent::TokenFetched(token) => {
                self.b2_token = token;
                self.mission_action()
            },
            ZwEvent::MissionReply(reply) => {
                self.user_mission = match reply {
                    Some(m) => m,
                    None => GetUserMission::default(),
                };
                self.check_status_on(today);
                if self.status {
                    ZwAction::Finished
                } else {
                    self.sign_in_action()
                }
            },
        }
    }
}

impl Zw {
    /// One step with today's date as the local clock gives it. Where the step would
    /// send a request without a token, it is not taken: the client stays as it was
    /// and the answer is `MissingToken`.
    pub fn step(&mut self, event: ZwEvent) -> (res: ZwAction)
        ensures
            exists|today: Seq<char>|
                is_ymd_date(today) && if old(self).token_ready(event, today) {
                    old(self).next(*final(self), event, today, res@)
                } else {
                    &&& res@ is MissingToken
                    &&& *final(self) == *old(self)
                },
    {
        let today = local_date_today();
        if self.is_token_ready(&event, today.as_str()) {
            let res = self.step_on(event, today.as_str());
            assert(is_ymd_date(today@) && old(self).next(*self, event, today@, res@));
            res
        } else {
            assert(is_ymd_date(today@) && !old(self).token_ready(event, today@));
            ZwAction::MissingToken
        }
    }
}

/// A check-in request that could not be sent is followed by a token fetch, and the
/// mission request that comes next carries the freshly fetched token.
pub proof fn lemma_refresh_after_failed_sign_in(
    z0: Zw,
    z1: Zw,
    z2: Zw,
    today1: Seq<char>,
    today2: Seq<char>,
    a1: ZwActionView,
    a2: ZwActionView,
    token: String,
)
    requires
        z0.next(z1, ZwEvent::SignInReply(None), today1, a1),
        z1.next(z2, ZwEvent::TokenFetched(Some(token)), today2, a2),
    ensures
        a1 == ZwActionView::FetchToken,
        z2.b2_token == Some(token),
        a2 == (ZwActionView::PostMission { url: z0.userinfo.url3@, token: token@ }),
{
}

/// A round begun on a client that already recorded today's check-in, as it is after
/// a finished round on the same day, ends at once and changes nothing.
pub proof fn lemma_round_on_checked_in_day(
    z: Zw,
    after: Zw,
    today: Seq<char>,
    action: ZwActionView,
)
    requires
        z.status,
        z.checked_in(today),
        z.next(after, ZwEvent::Start, today, action),
    ensures
        action == ZwActionView::Finished,
        after == z,
{
}

/// A client's check-in counts as today's exactly when the whole of today's date
/// occurs, character for character, somewhere in the mission's date.
pub proof fn lemma_checked_in_means_date_occurs(z: Zw, today: Seq<char>)
    ensures
        z.checked_in(today) <==> exists|i: int|
            0 <= i && i + today.len() <= z.user_mission.mission.date@.len()
                && #[trigger] z.user_mission.mission.date@.subrange(i, i + today.len()) == today,
{
}

/// A client that holds a token has what every request needs: it is ready for every
/// event but a token fetch that found none.
pub proof fn lemma_token_holder_ready(z: Zw, event: ZwEvent, today: Seq<char>)
    requires
        z.b2_token is Some,
        !(event matches ZwEvent::TokenFetched(None)),
    ensures
        z.token_ready(event, today),
{
}

/// A client holding a token whose mission date does not contain today's date
/// answers the start of a round with a check-in request to `url1` carrying that token.
pub proof fn lemma_start_without_record_signs_in(
    z: Zw,
    after: Zw,
    today: Seq<char>,
    action: ZwActionView,
    token: String,
)
    requires
        z.b2_token == Some(token),
        !(exists|i: int|
            0 <= i && i + today.len() <= z.user_mission.mission.date@.len()
                && #[trigger] z.user_mission.mission.date@.subrange(i, i + today.len()) == today),
        z.next(after, ZwEvent::Start, today, action),
    ensures
        z.token_ready(ZwEvent::Start, today),
        !after.status,
        action == (ZwActionView::PostSignIn { url: z.userinfo.url1@, token: token@ }),
{
    lemma_checked_in_means_date_occurs(z, today);
}

/// A mission reply whose date does not contain today's date makes a client that
/// holds a token check in again, with `url1` and that token.
pub proof fn lemma_stale_mission_signs_in_again(
    z: Zw,
    after: Zw,
    today: Seq<char>,
    action: ZwActionView,
    token: String,
    reply: GetUserMission,
)
    requires
        z.b2_token == Some(token),
        !(exists|i: int|
            0 <= i && i + today.len() <= reply.mission.date@.len()
                && #[trigger] reply.mission.date@.subrange(i, i + today.len()) == today),
        z.next(after, ZwEvent::MissionReply(Some(reply)), today, action),
    ensures
        !after.status,
        after.user_mission == reply,
        action == (ZwActionView::PostSignIn { url: z.userinfo.url1@, token: token@ }),
{
    lemma_checked_in_means_date_occurs(after, today);
}

} // verus!
