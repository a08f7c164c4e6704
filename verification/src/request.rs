//! The request to the feed: which stops to ask for, and the address that
//! asks for them.

use crate::text::{push_signed_decimal, signed_decimal};
use vstd::prelude::*;
use vstd::string::StringExecFns;

verus! {

/// A request for the departures of some stops.
#[derive(Clone, Debug)]
pub struct WienerLinienAPIRequest {
    pub traffic_info: String,
    pub stop_id: Vec<i32>,
}

/// The address of the feed.
pub open spec fn api_url() -> Seq<char> {
    "http://www.wienerlinien.at/ogd_realtime/monitor/"@
}

/// One `&stopId=` parameter for each stop, in the given order.
pub open spec fn stop_parameters(stop_ids: Seq<i32>) -> Seq<char>
    decreases stop_ids.len(),
{
    if stop_ids.len() == 0 {
        Seq::empty()
    } else {
        stop_parameters(stop_ids.drop_last()) + "&stopId="@ + signed_decimal(stop_ids.last() as int)
    }
}

/// The address that asks the feed for the given stops and kind of traffic
/// information.
pub open spec fn request_url(traffic_info: Seq<char>, stop_ids: Seq<i32>) -> Seq<char> {
    api_url() + "?activateTrafficInfo="@ + traffic_info + stop_parameters(stop_ids)
}

impl WienerLinienAPIRequest {
    /// The address that makes this request.
    pub fn to_req_url(&self) -> (url: String)
        ensures
            url@ == request_url(self.traffic_info@, self.stop_id@),
    {
        let mut url = String::from_str("http://www.wienerlinien.at/ogd_realtime/monitor/");
        url.append("?activateTrafficInfo=");
        url.append(self.traffic_info.as_str());
        let ghost head = url@;
        let mut i: usize = 0;
        assert(self.stop_id@.take(0) =~= Seq::<i32>::empty());
        while i < self.stop_id.len()
            invariant
                i <= self.stop_id.len(),
                url@ == head + stop_parameters(self.stop_id@.take(i as int)),
            decreases self.stop_id.len() - i,
        {
            proof {
                assert(self.stop_id@.take(i + 1).drop_last() =~= self.stop_id@.take(i as int));
                assert(self.stop_id@.take(i + 1).last() == self.stop_id@[i as int]);
            }
            url.append("&stopId=");
            push_signed_decimal(&mut url, self.stop_id[i] as i64);
            assert(url@ =~= head + stop_parameters(self.stop_id@.take(i + 1)));
            i += 1;
        }
        assert(self.stop_id@.take(i as int) =~= self.stop_id@);
        url
    }
}

} // verus!
