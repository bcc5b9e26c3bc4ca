//! Answers of the dispatch server: the region list and the gateway of the one region.
use vstd::prelude::*;

verus! {

/// One region in the region list.
pub struct RegionInfo {
    pub name: String,
    pub title: String,
    pub dispatch_url: String,
    pub ping_url: String,
    pub biz: String,
    pub area: i32,
    pub env: i32,
    pub retcode: i32,
    pub is_recommend: bool,
}

/// The answer to a region list query.
pub struct RegionList {
    pub retcode: i32,
    pub region_list: Vec<RegionInfo>,
}

/// Where the client finds the region's dispatch and its game gateway.
pub struct GatewayData {
    pub dispatch_url: String,
    pub gateway_url: String,
}

/// The answer to a gateway query.
pub struct GatewayReply {
    pub retcode: i32,
    pub message: String,
    pub data: GatewayData,
}

/// The dispatch address of the one region.
pub open spec fn region_dispatch_url() -> Seq<char> {
    "http://127.0.0.1:12401/query_gateway/prod_gf_cn"@
}

impl RegionInfo {
    /// The one region that this server offers.
    pub open spec fn is_local_region(&self) -> bool {
        &&& self.name@ == "prod_gf_cn"@
        &&& self.title@ == "roxy"@
        &&& self.dispatch_url@ == region_dispatch_url()
        &&& self.ping_url@ == ""@
        &&& self.biz@ == "nap_global"@
        &&& self.area == 2
        &&& self.env == 2
        &&& self.retcode == 0
        &&& self.is_recommend
    }
}

/// The region list: one recommended region, served by this machine.
pub fn query_dispatch() -> (r: RegionList)
    ensures
        r.retcode == 0,
        r.region_list@.len() == 1,
        r.region_list@[0].is_local_region(),
{
    let region = RegionInfo {
        name: "prod_gf_cn".to_owned(),
        title: "roxy".to_owned(),
        dispatch_url: "http://127.0.0.1:12401/query_gateway/prod_gf_cn".to_owned(),
        ping_url: "".to_owned(),
        biz: "nap_global".to_owned(),
        area: 2,
        env: 2,
        retcode: 0,
        is_recommend: true,
    };
    let mut region_list = Vec::new();
    region_list.push(region);
    RegionList { retcode: 0, region_list }
}

/// The gateway of the region: the game server on this machine.
pub fn query_gateway() -> (r: GatewayReply)
    ensures
        r.retcode == 0,
        r.message@ == "OK"@,
        r.data.dispatch_url@ == region_dispatch_url(),
        r.data.gateway_url@ == "http://127.0.0.1:10000"@,
{
    GatewayReply {
        retcode: 0,
        message: "OK".to_owned(),
        data: GatewayData {
            dispatch_url: "http://127.0.0.1:12401/query_gateway/prod_gf_cn".to_owned(),
            gateway_url: "http://127.0.0.1:10000".to_owned(),
        },
    }
}

} // verus!
