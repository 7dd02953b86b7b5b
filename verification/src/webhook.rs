//! The victory message posted to a Discord webhook when a boss falls.
use vstd::prelude::*;
use vstd::string::*;
use crate::text::{decimal, push_decimal};

verus! {

/// A message for the webhook at `url`.
pub struct VictoryPost {
    pub url: String,
    pub username: String,
    pub avatar_url: String,
    pub content: String,
}

/// The text that announces a victory over `boss_name` by a hero of `level`.
pub open spec fn victory_content(level: u32, boss_name: Seq<char>) -> Seq<char> {
    "\u{2694}\u{fe0f} **A Boss has Fallen!**\nHunter (Level "@ + decimal(level as nat)
        + ") just defeated **"@ + boss_name + "**!"@
}

/// The message for a victory over `boss_name` by a hero of `level`; none
/// when no webhook is set (`url` is empty).
pub fn victory_post(url: &str, boss_name: &str, level: u32) -> (r: Option<VictoryPost>)
    ensures
        r is None <==> url@.len() == 0,
        r matches Some(p) ==> {
            &&& p.url@ == url@
            &&& p.username@ == "Terminal Quest"@
            &&& p.avatar_url@ == "https://i.imgur.com/G2x2V32.png"@
            &&& p.content@ == victory_content(level, boss_name@)
        },
{
    if url.is_empty() {
        return None;
    }
    let mut content = "\u{2694}\u{fe0f} **A Boss has Fallen!**\nHunter (Level ".to_string();
    push_decimal(&mut content, level as u64);
    content.append(") just defeated **");
    content.append(boss_name);
    content.append("**!");
    Some(
        VictoryPost {
            url: url.to_string(),
            username: "Terminal Quest".to_string(),
            avatar_url: "https://i.imgur.com/G2x2V32.png".to_string(),
            content,
        },
    )
}

} // verus!
