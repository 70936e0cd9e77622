use vstd::prelude::*;
use crate::peer::clone_bytes;

verus! {

/// Direction of a captured wire message relative to the node.
#[derive(Clone, Copy, PartialEq, Eq, Structural, Debug)]
pub enum Direction {
    Inbound,
    Outbound,
}

/// Closed set of deliverable wire messages: one tag per message type of the
/// channel-management surface, carrying that type's wire fields as plain
/// values. Immutable once built; the interceptor only records these.
#[derive(Debug, Clone, PartialEq, Eq)]
pub enum WireMessage {
    Init { features: Vec<u8> },
    ErrorMessage { channel_id: Vec<u8>, data: Vec<u8> },
    OpenChannel { temporary_channel_id: Vec<u8>, funding_satoshis: u64 },
    AcceptChannel { temporary_channel_id: Vec<u8>, minimum_depth: u32 },
    OpenChannelV2 { temporary_channel_id: Vec<u8>, funding_satoshis: u64 },
    AcceptChannelV2 { temporary_channel_id: Vec<u8>, funding_satoshis: u64 },
    FundingCreated { temporary_channel_id: Vec<u8>, funding_output_index: u16 },
    FundingSigned { channel_id: Vec<u8>, signature: Vec<u8> },
    ChannelReady { channel_id: Vec<u8> },
    Shutdown { channel_id: Vec<u8>, scriptpubkey: Vec<u8> },
    ClosingSigned { channel_id: Vec<u8>, fee_satoshis: u64 },
    CommitmentSigned { channel_id: Vec<u8>, signature: Vec<u8> },
    RevokeAndAck { channel_id: Vec<u8>, per_commitment_secret: Vec<u8> },
    UpdateAddHtlc { channel_id: Vec<u8>, htlc_id: u64, amount_msat: u64 },
    UpdateFulfillHtlc { channel_id: Vec<u8>, htlc_id: u64, payment_preimage: Vec<u8> },
    UpdateFailHtlc { channel_id: Vec<u8>, htlc_id: u64, reason: Vec<u8> },
    UpdateFailMalformedHtlc { channel_id: Vec<u8>, htlc_id: u64, failure_code: u16 },
    UpdateFee { channel_id: Vec<u8>, feerate_per_kw: u32 },
    ChannelUpdate { payload: Vec<u8> },
    AnnouncementSignatures { channel_id: Vec<u8>, node_signature: Vec<u8> },
    ChannelReestablish { channel_id: Vec<u8>, next_commitment_number: u64 },
    Stfu { channel_id: Vec<u8>, initiator: bool },
    TxAddInput { channel_id: Vec<u8>, serial_id: u64 },
    TxAddOutput { channel_id: Vec<u8>, serial_id: u64, sats: u64 },
    TxRemoveInput { channel_id: Vec<u8>, serial_id: u64 },
    TxRemoveOutput { channel_id: Vec<u8>, serial_id: u64 },
    TxComplete { channel_id: Vec<u8> },
    TxSignatures { channel_id: Vec<u8>, txid: Vec<u8> },
    TxInitRbf { channel_id: Vec<u8>, locktime: u32 },
    TxAckRbf { channel_id: Vec<u8> },
    TxAbort { channel_id: Vec<u8>, data: Vec<u8> },
}

/// Mathematical image of a `WireMessage`: the same tags over byte sequences.
pub ghost enum WireView {
    Init { features: Seq<u8> },
    ErrorMessage { channel_id: Seq<u8>, data: Seq<u8> },
    OpenChannel { temporary_channel_id: Seq<u8>, funding_satoshis: u64 },
    AcceptChannel { temporary_channel_id: Seq<u8>, minimum_depth: u32 },
    OpenChannelV2 { temporary_channel_id: Seq<u8>, funding_satoshis: u64 },
    AcceptChannelV2 { temporary_channel_id: Seq<u8>, funding_satoshis: u64 },
    FundingCreated { temporary_channel_id: Seq<u8>, funding_output_index: u16 },
    FundingSigned { channel_id: Seq<u8>, signature: Seq<u8> },
    ChannelReady { channel_id: Seq<u8> },
    Shutdown { channel_id: Seq<u8>, scriptpubkey: Seq<u8> },
    ClosingSigned { channel_id: Seq<u8>, fee_satoshis: u64 },
    CommitmentSigned { channel_id: Seq<u8>, signature: Seq<u8> },
    RevokeAndAck { channel_id: Seq<u8>, per_commitment_secret: Seq<u8> },
    UpdateAddHtlc { channel_id: Seq<u8>, htlc_id: u64, amount_msat: u64 },
    UpdateFulfillHtlc { channel_id: Seq<u8>, htlc_id: u64, payment_preimage: Seq<u8> },
    UpdateFailHtlc { channel_id: Seq<u8>, htlc_id: u64, reason: Seq<u8> },
    UpdateFailMalformedHtlc { channel_id: Seq<u8>, htlc_id: u64, failure_code: u16 },
    UpdateFee { channel_id: Seq<u8>, feerate_per_kw: u32 },
    ChannelUpdate { payload: Seq<u8> },
    AnnouncementSignatures { channel_id: Seq<u8>, node_signature: Seq<u8> },
    ChannelReestablish { channel_id: Seq<u8>, next_commitment_number: u64 },
    Stfu { channel_id: Seq<u8>, initiator: bool },
    TxAddInput { channel_id: Seq<u8>, serial_id: u64 },
    TxAddOutput { channel_id: Seq<u8>, serial_id: u64, sats: u64 },
    TxRemoveInput { channel_id: Seq<u8>, serial_id: u64 },
    TxRemoveOutput { channel_id: Seq<u8>, serial_id: u64 },
    TxComplete { channel_id: Seq<u8> },
    TxSignatures { channel_id: Seq<u8>, txid: Seq<u8> },
    TxInitRbf { channel_id: Seq<u8>, locktime: u32 },
    TxAckRbf { channel_id: Seq<u8> },
    TxAbort { channel_id: Seq<u8>, data: Seq<u8> },
}

impl View for WireMessage {
    type V = WireView;

    open spec fn view(&self) -> WireView {
        match self {
            WireMessage::Init { features } => WireView::Init { features: features@ },
            WireMessage::ErrorMessage { channel_id, data } => WireView::ErrorMessage { channel_id: channel_id@, data: data@ },
            WireMessage::OpenChannel { temporary_channel_id, funding_satoshis } => WireView::OpenChannel { temporary_channel_id: temporary_channel_id@, funding_satoshis: *funding_satoshis },
            WireMessage::AcceptChannel { temporary_channel_id, minimum_depth } => WireView::AcceptChannel { temporary_channel_id: temporary_channel_id@, minimum_depth: *minimum_depth },
            WireMessage::OpenChannelV2 { temporary_channel_id, funding_satoshis } => WireView::OpenChannelV2 { temporary_channel_id: temporary_channel_id@, funding_satoshis: *funding_satoshis },
            WireMessage::AcceptChannelV2 { temporary_channel_id, funding_satoshis } => WireView::AcceptChannelV2 { temporary_channel_id: temporary_channel_id@, funding_satoshis: *funding_satoshis },
            WireMessage::FundingCreated { temporary_channel_id, funding_output_index } => WireView::FundingCreated { temporary_channel_id: temporary_channel_id@, funding_output_index: *funding_output_index },
            WireMessage::FundingSigned { channel_id, signature } => WireView::FundingSigned { channel_id: channel_id@, signature: signature@ },
            WireMessage::ChannelReady { channel_id } => WireView::ChannelReady { channel_id: channel_id@ },
            WireMessage::Shutdown { channel_id, scriptpubkey } => WireView::Shutdown { channel_id: channel_id@, scriptpubkey: scriptpubkey@ },
            WireMessage::ClosingSigned { channel_id, fee_satoshis } => WireView::ClosingSigned { channel_id: channel_id@, fee_satoshis: *fee_satoshis },
            WireMessage::CommitmentSigned { channel_id, signature } => WireView::CommitmentSigned { channel_id: channel_id@, signature: signature@ },
            WireMessage::RevokeAndAck { channel_id, per_commitment_secret } => WireView::RevokeAndAck { channel_id: channel_id@, per_commitment_secret: per_commitment_secret@ },
            WireMessage::UpdateAddHtlc { channel_id, htlc_id, amount_msat } => WireView::UpdateAddHtlc { channel_id: channel_id@, htlc_id: *htlc_id, amount_msat: *amount_msat },
            WireMessage::UpdateFulfillHtlc { channel_id, htlc_id, payment_preimage } => WireView::UpdateFulfillHtlc { channel_id: channel_id@, htlc_id: *htlc_id, payment_preimage: payment_preimage@ },
            WireMessage::UpdateFailHtlc { channel_id, htlc_id, reason } => WireView::UpdateFailHtlc { channel_id: channel_id@, htlc_id: *htlc_id, reason: reason@ },
            WireMessage::UpdateFailMalformedHtlc { channel_id, htlc_id, failure_code } => WireView::UpdateFailMalformedHtlc { channel_id: channel_id@, htlc_id: *htlc_id, failure_code: *failure_code },
            WireMessage::UpdateFee { channel_id, feerate_per_kw } => WireView::UpdateFee { channel_id: channel_id@, feerate_per_kw: *feerate_per_kw },
            WireMessage::ChannelUpdate { payload } => WireView::ChannelUpdate { payload: payload@ },
            WireMessage::AnnouncementSignatures { channel_id, node_signature } => WireView::AnnouncementSignatures { channel_id: channel_id@, node_signature: node_signature@ },
            WireMessage::ChannelReestablish { channel_id, next_commitment_number } => WireView::ChannelReestablish { channel_id: channel_id@, next_commitment_number: *next_commitment_number },
            WireMessage::Stfu { channel_id, initiator } => WireView::Stfu { channel_id: channel_id@, initiator: *initiator },
            WireMessage::TxAddInput { channel_id, serial_id } => WireView::TxAddInput { channel_id: channel_id@, serial_id: *serial_id },
            WireMessage::TxAddOutput { channel_id, serial_id, sats } => WireView::TxAddOutput { channel_id: channel_id@, serial_id: *serial_id, sats: *sats },
            WireMessage::TxRemoveInput { channel_id, serial_id } => WireView::TxRemoveInput { channel_id: channel_id@, serial_id: *serial_id },
            WireMessage::TxRemoveOutput { channel_id, serial_id } => WireView::TxRemoveOutput { channel_id: channel_id@, serial_id: *serial_id },
            WireMessage::TxComplete { channel_id } => WireView::TxComplete { channel_id: channel_id@ },
            WireMessage::TxSignatures { channel_id, txid } => WireView::TxSignatures { channel_id: channel_id@, txid: txid@ },
            WireMessage::TxInitRbf { channel_id, locktime } => WireView::TxInitRbf { channel_id: channel_id@, locktime: *locktime },
            WireMessage::TxAckRbf { channel_id } => WireView::TxAckRbf { channel_id: channel_id@ },
            WireMessage::TxAbort { channel_id, data } => WireView::TxAbort { channel_id: channel_id@, data: data@ },
        }
    }
}

impl WireMessage {
    /// An owned copy that denotes the same message.
    pub fn duplicate(&self) -> (r: WireMessage)
        ensures
            r@ == self@,
    {
        match self {
            WireMessage::Init { features } => WireMessage::Init { features: clone_bytes(features) },
            WireMessage::ErrorMessage { channel_id, data } => WireMessage::ErrorMessage { channel_id: clone_bytes(channel_id), data: clone_bytes(data) },
            WireMessage::OpenChannel { temporary_channel_id, funding_satoshis } => WireMessage::OpenChannel { temporary_channel_id: clone_bytes(temporary_channel_id), funding_satoshis: *funding_satoshis },
            WireMessage::AcceptChannel { temporary_channel_id, minimum_depth } => WireMessage::AcceptChannel { temporary_channel_id: clone_bytes(temporary_channel_id), minimum_depth: *minimum_depth },
            WireMessage::OpenChannelV2 { temporary_channel_id, funding_satoshis } => WireMessage::OpenChannelV2 { temporary_channel_id: clone_bytes(temporary_channel_id), funding_satoshis: *funding_satoshis },
            WireMessage::AcceptChannelV2 { temporary_channel_id, funding_satoshis } => WireMessage::AcceptChannelV2 { temporary_channel_id: clone_bytes(temporary_channel_id), funding_satoshis: *funding_satoshis },
            WireMessage::FundingCreated { temporary_channel_id, funding_output_index } => WireMessage::FundingCreated { temporary_channel_id: clone_bytes(temporary_channel_id), funding_output_index: *funding_output_index },
            WireMessage::FundingSigned { channel_id, signature } => WireMessage::FundingSigned { channel_id: clone_bytes(channel_id), signature: clone_bytes(signature) },
            WireMessage::ChannelReady { channel_id } => WireMessage::ChannelReady { channel_id: clone_bytes(channel_id) },
            WireMessage::Shutdown { channel_id, scriptpubkey } => WireMessage::Shutdown { channel_id: clone_bytes(channel_id), scriptpubkey: clone_bytes(scriptpubkey) },
            WireMessage::ClosingSigned { channel_id, fee_satoshis } => WireMessage::ClosingSigned { channel_id: clone_bytes(channel_id), fee_satoshis: *fee_satoshis },
            WireMessage::CommitmentSigned { channel_id, signature } => WireMessage::CommitmentSigned { channel_id: clone_bytes(channel_id), signature: clone_bytes(signature) },
            WireMessage::RevokeAndAck { channel_id, per_commitment_secret } => WireMessage::RevokeAndAck { channel_id: clone_bytes(channel_id), per_commitment_secret: clone_bytes(per_commitment_secret) },
            WireMessage::UpdateAddHtlc { channel_id, htlc_id, amount_msat } => WireMessage::UpdateAddHtlc { channel_id: clone_bytes(channel_id), htlc_id: *htlc_id, amount_msat: *amount_msat },
            WireMessage::UpdateFulfillHtlc { channel_id, htlc_id, payment_preimage } => WireMessage::UpdateFulfillHtlc { channel_id: clone_bytes(channel_id), htlc_id: *htlc_id, payment_preimage: clone_bytes(payment_preimage) },
            WireMessage::UpdateFailHtlc { channel_id, htlc_id, reason } => WireMessage::UpdateFailHtlc { channel_id: clone_bytes(channel_id), htlc_id: *htlc_id, reason: clone_bytes(reason) },
            WireMessage::UpdateFailMalformedHtlc { channel_id, htlc_id, failure_code } => WireMessage::UpdateFailMalformedHtlc { channel_id: clone_bytes(channel_id), htlc_id: *htlc_id, failure_code: *failure_code },
            WireMessage::UpdateFee { channel_id, feerate_per_kw } => WireMessage::UpdateFee { channel_id: clone_bytes(channel_id), feerate_per_kw: *feerate_per_kw },
            WireMessage::ChannelUpdate { payload } => WireMessage::ChannelUpdate { payload: clone_bytes(payload) },
            WireMessage::AnnouncementSignatures { channel_id, node_signature } => WireMessage::AnnouncementSignatures { channel_id: clone_bytes(channel_id), node_signature: clone_bytes(node_signature) },
            WireMessage::ChannelReestablish { channel_id, next_commitment_number } => WireMessage::ChannelReestablish { channel_id: clone_bytes(channel_id), next_commitment_number: *next_commitment_number },
            WireMessage::Stfu { channel_id, initiator } => WireMessage::Stfu { channel_id: clone_bytes(channel_id), initiator: *initiator },
            WireMessage::TxAddInput { channel_id, serial_id } => WireMessage::TxAddInput { channel_id: clone_bytes(channel_id), serial_id: *serial_id },
            WireMessage::TxAddOutput { channel_id, serial_id, sats } => WireMessage::TxAddOutput { channel_id: clone_bytes(channel_id), serial_id: *serial_id, sats: *sats },
            WireMessage::TxRemoveInput { channel_id, serial_id } => WireMessage::TxRemoveInput { channel_id: clone_bytes(channel_id), serial_id: *serial_id },
            WireMessage::TxRemoveOutput { channel_id, serial_id } => WireMessage::TxRemoveOutput { channel_id: clone_bytes(channel_id), serial_id: *serial_id },
            WireMessage::TxComplete { channel_id } => WireMessage::TxComplete { channel_id: clone_bytes(channel_id) },
            WireMessage::TxSignatures { channel_id, txid } => WireMessage::TxSignatures { channel_id: clone_bytes(channel_id), txid: clone_bytes(txid) },
            WireMessage::TxInitRbf { channel_id, locktime } => WireMessage::TxInitRbf { channel_id: clone_bytes(channel_id), locktime: *locktime },
            WireMessage::TxAckRbf { channel_id } => WireMessage::TxAckRbf { channel_id: clone_bytes(channel_id) },
            WireMessage::TxAbort { channel_id, data } => WireMessage::TxAbort { channel_id: clone_bytes(channel_id), data: clone_bytes(data) },
        }
    }
}

} // verus!
