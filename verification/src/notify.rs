//! Texts of the system notification that asks the user about an incoming
//! transfer batch, in the host's language.

use vstd::prelude::*;
use crate::server::{decimal, decimal_string};
use crate::text::concat;

verus! {

/// Title, body and button labels of a batch notification.
#[derive(Debug, Clone, PartialEq, Eq)]
pub struct BatchTexts {
    /// Title.
    pub title: String,
    /// Body.
    pub body: String,
    /// Label of the button that accepts every file.
    pub accept: String,
    /// Label of the button that rejects every file.
    pub reject: String,
}

/// Size part of the body: ` ({rough})` when the batch has a size, else
/// nothing.
pub open spec fn size_label(total_size: u64, rough: Seq<char>) -> Seq<char> {
    if total_size > 0 {
        " ("@ + rough + ")"@
    } else {
        Seq::empty()
    }
}

/// Texts of the notification for a batch of `file_count` files from
/// `peer_name`, in English when `english` and in Chinese otherwise;
/// `rough_size` is the display form of `total_size`, shown only when the
/// size is known (positive).
pub fn batch_texts(english: bool, peer_name: &str, file_count: usize, total_size: u64, rough_size: &str) -> (t: BatchTexts)
    ensures
        english ==> t.title@ == "File transfer request"@ && t.body@ == peer_name@ + " wants to send you "@
            + decimal(file_count as nat) + " file(s)"@ + size_label(total_size, rough_size@) && t.accept@
            == "Accept all"@ && t.reject@ == "Reject all"@,
        !english ==> t.title@ == "文件传输请求"@ && t.body@ == peer_name@ + " 想向你发送 "@ + decimal(
            file_count as nat,
        ) + " 个文件"@ + size_label(total_size, rough_size@) && t.accept@ == "接受全部"@ && t.reject@
            == "拒绝全部"@,
{
    let label = if total_size > 0 {
        let a = concat(" (", rough_size);
        concat(a.as_str(), ")")
    } else {
        String::new()
    };
    let count = decimal_string(file_count as u64);
    if english {
        let a = concat(peer_name, " wants to send you ");
        let b = concat(a.as_str(), count.as_str());
        let c = concat(b.as_str(), " file(s)");
        BatchTexts {
            title: "File transfer request".to_owned(),
            body: concat(c.as_str(), label.as_str()),
            accept: "Accept all".to_owned(),
            reject: "Reject all".to_owned(),
        }
    } else {
        let a = concat(peer_name, " 想向你发送 ");
        let b = concat(a.as_str(), count.as_str());
        let c = concat(b.as_str(), " 个文件");
        BatchTexts {
            title: "文件传输请求".to_owned(),
            body: concat(c.as_str(), label.as_str()),
            accept: "接受全部".to_owned(),
            reject: "拒绝全部".to_owned(),
        }
    }
}

} // verus!
