pub mod net;
pub mod wire;
pub mod table;
pub mod text;
pub mod diameter;
pub mod coap;
pub mod dhcp;
pub mod dhcp_readback;
pub mod dns;
pub mod dns_readback;
pub mod diameter_s13_bulk;
pub mod diameter_s13_cache;
pub mod diameter_s6a_pur;
pub mod diameter_s6a_rsr;
pub mod diameter_s6a_clr;
pub mod diameter_s6a_nor;
pub mod diameter_s6a_uar;
pub mod diameter_s6a_idr;
pub mod diameter_s6b;
pub mod diameter_cx;
pub mod diameter_s13_prime;
pub mod diameter_s6c;
pub mod diameter_zh;
pub mod diameter_sgd;
pub mod diameter_np;
pub mod diameter_s6m;
pub mod diameter_s6t;
pub mod diameter_swm;
pub mod diameter_s13_graylist;
pub mod diameter_s13_imeidb;
pub mod diameter_s13_ocp;
pub mod diameter_s13_escn;
pub mod diameter_s13_imei_tamper;
pub mod diameter_s13_geo_fence;
pub mod diameter_s13_roam_mismatch;
pub mod diameter_s13_imei_range;
pub mod diameter_s13_tac_whitelist_expiry;
pub mod diameter_s13_emergency_exemption;
pub mod detnet_mpls_cw;
pub mod detnet_tsn;
pub mod detnet_ip_mpls_map;
pub mod diameter_charging;
pub mod dhcpv6;
pub mod dhcpv6_readback;
pub mod chf_5g;
pub mod diameter_gx;
pub mod diameter_gx_readback;
pub mod diameter_rx;
pub mod diameter_slg;
pub mod diameter_sy;
pub mod e2ap_oran;
pub mod e1ap_5g;
pub mod ddnmf_5g;
pub mod diameter_s6a;
pub mod diameter_s9;
pub mod diameter_slh;
pub mod diameter_sh;
pub mod diameter_s13;
pub mod dccf_5g;
pub mod detnet_schedulability;
pub mod detnet_latency_budget;
