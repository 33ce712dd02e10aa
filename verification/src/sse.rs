//! Server-Sent-Events framing.

use vstd::prelude::*;

verus! {

/// One SSE frame: optional event name, optional id, and the data line.
#[derive(Debug)]
pub struct SseEvent {
    pub event: Option<String>,
    pub data: String,
    pub id: Option<String>,
}

/// The wire text of a frame: the optional `event:` and `id:` lines, then the
/// data line and the blank line that ends the frame.
pub open spec fn spec_render(event: Option<Seq<char>>, id: Option<Seq<char>>, data: Seq<char>) -> Seq<
    char,
> {
    (match event {
        Some(e) => "event: "@ + e + "\n"@,
        None => Seq::<char>::empty(),
    }) + (match id {
        Some(i) => "id: "@ + i + "\n"@,
        None => Seq::<char>::empty(),
    }) + "data: "@ + data + "\n\n"@
}

impl SseEvent {
    /// A plain data frame.
    pub fn new(data: String) -> (e: SseEvent)
        ensures
            e.event is None,
            e.id is None,
            e.data == data,
    {
        SseEvent { event: None, data, id: None }
    }

    /// The frame's wire text.
    pub fn to_string(&self) -> (r: String)
        ensures
            r@ == spec_render(self.event.deep_view(), self.id.deep_view(), self.data@),
    {
        let mut s = String::new();
        match &self.event {
            Some(ev) => {
                s.append("event: ");
                s.append(ev.as_str());
                s.append("\n");
            },
            None => {},
        }
        match &self.id {
            Some(id) => {
                s.append("id: ");
                s.append(id.as_str());
                s.append("\n");
            },
            None => {},
        }
        s.append("data: ");
        s.append(self.data.as_str());
        s.append("\n\n");
        proof {
            assert(s@ =~= spec_render(self.event.deep_view(), self.id.deep_view(), self.data@));
        }
        s
    }
}

} // verus!
