//! Reading answers aloud: whether a text is spoken at all, and what is sent
//! to the speech service for it.

use vstd::prelude::*;
use crate::json::{members_view, Json, JsonView, Member, MemberView};
use crate::text::{is_blank, trim};

verus! {

/// The speech service and whether it is used.
#[derive(Clone, Debug, PartialEq, Eq)]
pub struct AudioPlayer {
    pub endpoint: String,
    pub enabled: bool,
}

/// The body that asks the speech service for `text`.
pub open spec fn speech_request(text: Seq<char>) -> JsonView {
    JsonView::Object(seq![MemberView { key: "text"@, value: JsonView::Text(text) }])
}

impl AudioPlayer {
    /// A player for the speech service at `endpoint`.
    pub fn new(endpoint: String, enabled: bool) -> (player: AudioPlayer)
        ensures
            player.endpoint@ == endpoint@,
            player.enabled == enabled,
    {
        AudioPlayer { endpoint, enabled }
    }

    /// The body to post to the speech service for `text`; none where the
    /// player is off or the text is blank.
    pub fn play_text(&self, text: &str) -> (body: Option<Json>)
        ensures
            match body {
                Some(b) => self.enabled && trim(text@).len() > 0 && b@ == speech_request(text@),
                None => !self.enabled || trim(text@).len() == 0,
            },
    {
        if !self.enabled || is_blank(text) {
            None
        } else {
            let mut fields: Vec<Member> = Vec::new();
            fields.push(Member::text("text", text));
            assert(members_view(fields@) =~= seq![
                MemberView { key: "text"@, value: JsonView::Text(text@) },
            ]);
            Some(Json::object(fields))
        }
    }
}

} // verus!
