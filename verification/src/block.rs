//! What a block consists of, as far as the state layer carries it.

use vstd::prelude::*;

use crate::primitives::{Address, Duplicate, B256, U256};

verus! {

/// A block header.
#[derive(Debug)]
pub struct Header {
    pub parent_hash: B256,
    pub ommers_hash: B256,
    pub beneficiary: Address,
    pub state_root: B256,
    pub transactions_root: B256,
    pub receipts_root: B256,
    pub logs_bloom: [u8; 256],
    pub difficulty: U256,
    pub number: u64,
    pub gas_limit: u64,
    pub gas_used: u64,
    pub timestamp: u64,
    pub extra_data: Vec<u8>,
    pub mix_hash: B256,
    pub nonce: u64,
    pub base_fee_per_gas: Option<u64>,
    pub withdrawals_root: Option<B256>,
    pub blob_gas_used: Option<u64>,
    pub excess_blob_gas: Option<u64>,
    pub parent_beacon_block_root: Option<B256>,
    pub requests_hash: Option<B256>,
    pub block_access_list_hash: Option<B256>,
    pub slot_number: Option<u64>,
}

/// The model of a `Header`.
pub struct HeaderView {
    pub parent_hash: B256,
    pub ommers_hash: B256,
    pub beneficiary: Address,
    pub state_root: B256,
    pub transactions_root: B256,
    pub receipts_root: B256,
    pub logs_bloom: [u8; 256],
    pub difficulty: U256,
    pub number: u64,
    pub gas_limit: u64,
    pub gas_used: u64,
    pub timestamp: u64,
    pub extra_data: Seq<u8>,
    pub mix_hash: B256,
    pub nonce: u64,
    pub base_fee_per_gas: Option<u64>,
    pub withdrawals_root: Option<B256>,
    pub blob_gas_used: Option<u64>,
    pub excess_blob_gas: Option<u64>,
    pub parent_beacon_block_root: Option<B256>,
    pub requests_hash: Option<B256>,
    pub block_access_list_hash: Option<B256>,
    pub slot_number: Option<u64>,
}

impl DeepView for Header {
    type V = HeaderView;

    open spec fn deep_view(&self) -> HeaderView {
        HeaderView {
            parent_hash: self.parent_hash,
            ommers_hash: self.ommers_hash,
            beneficiary: self.beneficiary,
            state_root: self.state_root,
            transactions_root: self.transactions_root,
            receipts_root: self.receipts_root,
            logs_bloom: self.logs_bloom,
            difficulty: self.difficulty,
            number: self.number,
            gas_limit: self.gas_limit,
            gas_used: self.gas_used,
            timestamp: self.timestamp,
            extra_data: self.extra_data@,
            mix_hash: self.mix_hash,
            nonce: self.nonce,
            base_fee_per_gas: self.base_fee_per_gas,
            withdrawals_root: self.withdrawals_root,
            blob_gas_used: self.blob_gas_used,
            excess_blob_gas: self.excess_blob_gas,
            parent_beacon_block_root: self.parent_beacon_block_root,
            requests_hash: self.requests_hash,
            block_access_list_hash: self.block_access_list_hash,
            slot_number: self.slot_number,
        }
    }
}

fn copy_bytes(bytes: &Vec<u8>) -> (res: Vec<u8>)
    ensures
        res@ == bytes@,
{
    let res = bytes.clone();
    assert(res@ =~= bytes@);
    res
}

impl Duplicate for Header {
    fn duplicate(&self) -> (res: Header) {
        Header {
            parent_hash: self.parent_hash,
            ommers_hash: self.ommers_hash,
            beneficiary: self.beneficiary,
            state_root: self.state_root,
            transactions_root: self.transactions_root,
            receipts_root: self.receipts_root,
            logs_bloom: self.logs_bloom,
            difficulty: self.difficulty,
            number: self.number,
            gas_limit: self.gas_limit,
            gas_used: self.gas_used,
            timestamp: self.timestamp,
            extra_data: copy_bytes(&self.extra_data),
            mix_hash: self.mix_hash,
            nonce: self.nonce,
            base_fee_per_gas: self.base_fee_per_gas,
            withdrawals_root: self.withdrawals_root,
            blob_gas_used: self.blob_gas_used,
            excess_blob_gas: self.excess_blob_gas,
            parent_beacon_block_root: self.parent_beacon_block_root,
            requests_hash: self.requests_hash,
            block_access_list_hash: self.block_access_list_hash,
            slot_number: self.slot_number,
        }
    }
}

/// A header together with the hash that seals it.
#[derive(Debug)]
pub struct SealedHeader {
    pub header: Header,
    pub hash: B256,
}

/// The model of a `SealedHeader`.
pub struct SealedHeaderView {
    pub header: HeaderView,
    pub hash: B256,
}

impl DeepView for SealedHeader {
    type V = SealedHeaderView;

    open spec fn deep_view(&self) -> SealedHeaderView {
        SealedHeaderView { header: self.header.deep_view(), hash: self.hash }
    }
}

impl Duplicate for SealedHeader {
    fn duplicate(&self) -> (res: SealedHeader) {
        SealedHeader { header: self.header.duplicate(), hash: self.hash }
    }
}

impl Clone for SealedHeader {
    fn clone(&self) -> (res: SealedHeader)
        ensures
            res.deep_view() == self.deep_view(),
    {
        self.duplicate()
    }
}

/// A withdrawal from the consensus layer.
#[derive(Clone, Copy, Debug, PartialEq, Eq)]
pub struct Withdrawal {
    pub index: u64,
    pub validator_index: u64,
    pub address: Address,
    /// In gwei.
    pub amount: u64,
}

/// The withdrawals of one block.
pub type Withdrawals = Vec<Withdrawal>;

impl DeepView for Withdrawal {
    type V = Withdrawal;

    open spec fn deep_view(&self) -> Withdrawal {
        *self
    }
}

impl Duplicate for Withdrawal {
    fn duplicate(&self) -> (res: Withdrawal) {
        *self
    }
}

/// An event that a contract emitted.
#[derive(Debug)]
pub struct Log {
    pub address: Address,
    pub topics: Vec<B256>,
    pub data: Vec<u8>,
}

/// The model of a `Log`.
pub struct LogView {
    pub address: Address,
    pub topics: Seq<B256>,
    pub data: Seq<u8>,
}

impl DeepView for Log {
    type V = LogView;

    open spec fn deep_view(&self) -> LogView {
        LogView { address: self.address, topics: self.topics.deep_view(), data: self.data@ }
    }
}

impl Duplicate for Log {
    fn duplicate(&self) -> (res: Log) {
        Log {
            address: self.address,
            topics: self.topics.duplicate(),
            data: copy_bytes(&self.data),
        }
    }
}

/// What came of a transaction.
#[derive(Debug)]
pub struct Receipt {
    pub tx_type: u8,
    pub success: bool,
    pub cumulative_gas_used: u64,
    pub logs: Vec<Log>,
}

/// The model of a `Receipt`.
pub struct ReceiptView {
    pub tx_type: u8,
    pub success: bool,
    pub cumulative_gas_used: u64,
    pub logs: Seq<LogView>,
}

impl DeepView for Receipt {
    type V = ReceiptView;

    open spec fn deep_view(&self) -> ReceiptView {
        ReceiptView {
            tx_type: self.tx_type,
            success: self.success,
            cumulative_gas_used: self.cumulative_gas_used,
            logs: self.logs.deep_view(),
        }
    }
}

impl Duplicate for Receipt {
    fn duplicate(&self) -> (res: Receipt) {
        Receipt {
            tx_type: self.tx_type,
            success: self.success,
            cumulative_gas_used: self.cumulative_gas_used,
            logs: self.logs.duplicate(),
        }
    }
}

/// The model of a header says all there is to it, each part as it is.
pub proof fn header_model_is_complete(header: Header)
    ensures
        header.deep_view().parent_hash == header.parent_hash,
        header.deep_view().ommers_hash == header.ommers_hash,
        header.deep_view().beneficiary == header.beneficiary,
        header.deep_view().state_root == header.state_root,
        header.deep_view().transactions_root == header.transactions_root,
        header.deep_view().receipts_root == header.receipts_root,
        header.deep_view().logs_bloom == header.logs_bloom,
        header.deep_view().difficulty == header.difficulty,
        header.deep_view().number == header.number,
        header.deep_view().gas_limit == header.gas_limit,
        header.deep_view().gas_used == header.gas_used,
        header.deep_view().timestamp == header.timestamp,
        header.deep_view().mix_hash == header.mix_hash,
        header.deep_view().nonce == header.nonce,
        header.deep_view().base_fee_per_gas == header.base_fee_per_gas,
        header.deep_view().withdrawals_root == header.withdrawals_root,
        header.deep_view().blob_gas_used == header.blob_gas_used,
        header.deep_view().excess_blob_gas == header.excess_blob_gas,
        header.deep_view().parent_beacon_block_root == header.parent_beacon_block_root,
        header.deep_view().requests_hash == header.requests_hash,
        header.deep_view().block_access_list_hash == header.block_access_list_hash,
        header.deep_view().slot_number == header.slot_number,
        header.deep_view().extra_data == header.extra_data@,
{
}

/// The model of a sealed header is that of the header, with the hash that seals
/// it.
pub proof fn sealed_header_model_is_complete(sealed: SealedHeader)
    ensures
        sealed.deep_view().hash == sealed.hash,
        sealed.deep_view().header == sealed.header.deep_view(),
{
}

/// The model of a withdrawal says all there is to it.
pub proof fn withdrawal_model_is_complete(withdrawal: Withdrawal)
    ensures
        withdrawal.deep_view().index == withdrawal.index,
        withdrawal.deep_view().validator_index == withdrawal.validator_index,
        withdrawal.deep_view().address == withdrawal.address,
        withdrawal.deep_view().amount == withdrawal.amount,
{
}

/// The model of a log says all there is to it: every topic and every byte.
pub proof fn log_model_is_complete(log: Log)
    ensures
        log.deep_view().address == log.address,
        log.deep_view().topics == log.topics@,
        log.deep_view().data == log.data@,
{
    assert(log.deep_view().topics =~= log.topics@);
}

/// The model of a receipt says all there is to it: every one of its logs, in
/// their order.
pub proof fn receipt_model_is_complete(receipt: Receipt)
    ensures
        receipt.deep_view().tx_type == receipt.tx_type,
        receipt.deep_view().success == receipt.success,
        receipt.deep_view().cumulative_gas_used == receipt.cumulative_gas_used,
        receipt.deep_view().logs.len() == receipt.logs@.len(),
        forall|i: int|
            0 <= i < receipt.logs@.len() ==> #[trigger] receipt.deep_view().logs[i]
                == receipt.logs@[i].deep_view(),
{
}

} // verus!
