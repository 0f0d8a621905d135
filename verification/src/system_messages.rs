//! The system messages of a Second Life chat log: the messages the viewer
//! and the grid write under the name `Second Life`. The rules of the log
//! format are tried in a fixed order and the first rule that reads the
//! message decides what it is; a message no rule reads is classified by
//! its text (messages with a link, holiday wishes, startup notices, ...).
//!
//! Each rule reads a prefix of the text from a given index. Numbers keep
//! the digits they were written with where the format writes a fraction
//! (distances, coordinates, times), and the keys of avatars, groups and
//! objects keep their UUID text.
use vstd::prelude::*;

use crate::chars::string_from_chars;
use crate::chat_log::{
    lit_at, lit_at_exec, skip_ws, spec_skip_ws, DistanceText, UtcTimestamp,
};
use crate::scan::{
    line_end, opt_int, spec_line_end, AgentKey, Decimal, GroupKey, LindenAmount, ObjectKey,
    OwnerKey,
};

verus! {

/// a position inside a region as written with a fraction: `{ x, y, z }`
#[derive(Debug, Clone)]
pub struct RegionCoordinates {
    /// meters east of the western edge of the region
    pub x: Decimal,
    /// meters north of the southern edge of the region
    pub y: Decimal,
    /// meters above zero height
    pub z: Decimal,
}

/// a vector of three components as LSL writes it: `<x, y, z>`
#[derive(Debug, Clone)]
pub struct Vector {
    /// the x component
    pub x: Decimal,
    /// the y component
    pub y: Decimal,
    /// the z component
    pub z: Decimal,
}

/// a rotation (quaternion) as LSL writes it: `<x, y, z, s>`
#[derive(Debug, Clone)]
pub struct Rotation {
    /// the x component
    pub x: Decimal,
    /// the y component
    pub y: Decimal,
    /// the z component
    pub z: Decimal,
    /// the s component
    pub s: Decimal,
}

/// a region and integer coordinates in it that may lie outside the region
/// (as map links write them)
#[derive(Debug, Clone)]
pub struct UnconstrainedLocation {
    /// the name of the region
    pub region_name: String,
    /// meters east of the western edge
    pub x: i16,
    /// meters north of the southern edge
    pub y: i16,
    /// meters above zero height
    pub z: i32,
}

/// a region and integer coordinates inside it
#[derive(Debug, Clone)]
pub struct Location {
    /// the name of the region
    pub region_name: String,
    /// meters east of the western edge
    pub x: u8,
    /// meters north of the southern edge
    pub y: u8,
    /// meters above zero height
    pub z: u16,
}

/// how the pathfinding system treats an object
#[derive(Debug, Clone, Copy, PartialEq, Eq, Structural)]
pub enum PathfindingType {
    /// attachments, Linden trees and grass
    Other,
    /// movable obstacles, movable phantoms, physical and volume detect objects
    LegacyLinkset,
    /// avatars
    Avatar,
    /// pathfinding characters
    Character,
    /// walkable objects
    Walkable,
    /// static obstacles
    StaticObstacle,
    /// material volumes
    MaterialVolume,
    /// exclusion volumes
    ExclusionVolume,
}

/// the facts the viewer reports about an inspected object (Firestorm's
/// extended script info)
#[derive(Debug, Clone)]
pub struct ExtendedScriptInfo {
    /// the key of the object
    pub object_key: ObjectKey,
    /// its description, `None` for `(No Description)`
    pub description: Option<String>,
    /// the key of its root prim
    pub root_prim: ObjectKey,
    /// the number of prims
    pub prim_count: usize,
    /// its land impact
    pub land_impact: usize,
    /// the number of items in its inventory
    pub inventory_items: usize,
    /// its velocity
    pub velocity: Vector,
    /// its position in the region
    pub position: Vector,
    /// the distance from the inspecting avatar to it
    pub position_distance: DistanceText,
    /// its rotation as a quaternion
    pub rotation: Rotation,
    /// its rotation as angles in degrees
    pub rotation_vector_degrees: Vector,
    /// its angular velocity in radians per second
    pub angular_velocity: Vector,
    /// its creator
    pub creator: AgentKey,
    /// its owner
    pub owner: OwnerKey,
    /// its previous owner, if any
    pub previous_owner: Option<OwnerKey>,
    /// the avatar that rezzed it
    pub rezzed_by: AgentKey,
    /// its group, if any
    pub group: Option<GroupKey>,
    /// when it was created, if written
    pub creation_time: Option<UtcTimestamp>,
    /// when it was rezzed, if written
    pub rez_time: Option<UtcTimestamp>,
    /// how pathfinding treats it
    pub pathfinding_type: PathfindingType,
    /// the attachment point it is attached to, as written, if attached
    pub attachment_point: Option<String>,
    /// whether it is attached temporarily
    pub temporarily_attached: bool,
    /// the position of the inspecting avatar
    pub inspecting_avatar_position: Vector,
}

/// a message by the Second Life viewer or server itself
#[derive(Debug, Clone)]
pub enum SystemMessage {
    /// a snapshot was saved
    SavedSnapshot {
        /// the file name of the snapshot
        filename: String,
    },
    /// a snapshot could not be saved because its folder does not exist
    FailedToSaveSnapshotDueToMissingDestinationFolder {
        /// the folder
        folder: String,
    },
    /// a snapshot could not be saved for lack of disk space
    FailedToSaveSnapshotDueToDiskSpace {
        /// the folder
        folder: String,
        /// the space required, in KiB
        required_disk_space_kib: u64,
        /// the space that was free, in KiB
        free_disk_space_kib: u64,
    },
    /// the draw distance was set
    DrawDistanceSet {
        /// the new draw distance
        distance: DistanceText,
    },
    /// the home position was set
    HomePositionSet,
    /// land was divided
    LandDivided,
    /// land could not be joined because it spans regions
    FailedToJoinLandDueToRegionBoundary,
    /// a calling card was offered
    OfferedCallingCard {
        /// the name of the avatar it was offered to
        recipient_avatar_name: String,
    },
    /// an attachment was saved
    AttachmentSavedMessage,
    /// you paid for an object
    YouPaidForObject {
        /// the seller, an avatar or a group
        seller: OwnerKey,
        /// the amount paid
        amount: LindenAmount,
        /// the name of the object
        object_name: String,
    },
    /// you paid to create a group
    YouPaidToCreateGroup {
        /// the avatar that was paid
        payment_recipient: AgentKey,
        /// the amount paid
        amount: LindenAmount,
    },
    /// you paid to join a group
    YouPaidToJoinGroup {
        /// the group joined
        joined_group: GroupKey,
        /// the fee paid
        join_fee: LindenAmount,
    },
    /// you paid for a parcel of land
    YouPaidForLand {
        /// the previous owner of the land
        previous_land_owner: OwnerKey,
        /// the amount paid
        amount: LindenAmount,
    },
    /// a payment failed
    FailedToPay {
        /// who was to be paid
        payment_recipient: OwnerKey,
        /// the amount that could not be paid
        amount: LindenAmount,
    },
    /// an object was allowed to take Linden dollars from you
    ObjectGrantedPermissionToTakeMoney {
        /// the name of the object
        object_name: String,
        /// the name of its owner
        owner_name: String,
        /// its region, `None` when unknown
        object_region: Option<String>,
        /// its position in the region, `None` when unknown
        object_location: Option<RegionCoordinates>,
    },
    /// you sent a payment
    SentPayment {
        /// who was paid
        recipient_key: OwnerKey,
        /// the amount sent
        amount: LindenAmount,
        /// the message with the payment, if any
        message: Option<String>,
    },
    /// you received a payment
    ReceivedPayment {
        /// who paid
        sender_key: OwnerKey,
        /// the amount received
        amount: LindenAmount,
        /// the message with the payment, if any
        message: Option<String>,
    },
    /// you were added to a group
    AddedToGroup,
    /// you left a group
    LeftGroup {
        /// the name of the group
        group_name: String,
    },
    /// you cannot invite to a group you are not in
    UnableToInviteUserDueToMissingGroupMembership,
    /// you cannot invite users of another limited estate than the group's
    UnableToInviteUserToGroupDueToDifferingLimitedEstate,
    /// a notecard could not be loaded
    UnableToLoadNotecard,
    /// a gesture could not be loaded
    UnableToLoadGesture {
        /// the name of the gesture
        gesture_name: String,
    },
    /// a song plays on the stream
    NowPlaying {
        /// the name of the song
        song_name: String,
    },
    /// a teleport completed
    TeleportCompleted {
        /// where the teleport started
        origin: UnconstrainedLocation,
    },
    /// the region you are in is about to restart
    RegionRestart,
    /// an object gave you an object
    ObjectGaveObject {
        /// the name of the giving object
        giving_object_name: String,
        /// where the giving object is
        giving_object_location: UnconstrainedLocation,
        /// the owner of the giving object
        giving_object_owner: OwnerKey,
        /// the name of the given object
        given_object_name: String,
    },
    /// an object gave you a folder
    ObjectGaveFolder {
        /// the key of the giving object
        giving_object_key: ObjectKey,
        /// the name of the giving object
        giving_object_name: String,
        /// the owner of the giving object
        giving_object_owner: OwnerKey,
        /// where the giving object is
        giving_object_location: Location,
        /// the label of the link to the giving object
        giving_object_link_label: String,
        /// the name of the folder
        folder_name: String,
    },
    /// an avatar gave you an object
    AvatarGaveObject {
        /// whether the avatar was named as a group member
        is_group_member: bool,
        /// the name of the avatar
        giving_avatar_name: String,
        /// the name of the object
        given_object_name: String,
    },
    /// you declined an object given to you
    DeclinedGivenObject {
        /// the name of the object
        object_name: String,
        /// where the giver is
        giver_location: UnconstrainedLocation,
        /// the name of the giver
        giver_name: String,
    },
    /// you are asked to select residents to share with
    SelectResidentsToShareWith,
    /// items were shared
    ItemsSuccessfullyShared,
    /// a search query was shortened
    ModifiedSearchQuery {
        /// the query searched for
        query: String,
    },
    /// the region runs another simulator version than the last one
    SimulatorVersion {
        /// the simulator version of the previous region
        previous_region_simulator_version: String,
        /// the simulator version of this region
        current_region_simulator_version: String,
    },
    /// an avatar was renamed
    RenamedAvatar {
        /// the old name
        old_name: String,
        /// the new name
        new_name: String,
    },
    /// double-click teleports were switched on or off
    DoubleClickTeleport {
        /// whether they are on now
        enabled: bool,
    },
    /// always run was switched on or off
    AlwaysRun {
        /// whether it is on now
        enabled: bool,
    },
    /// you were added as an estate manager
    AddedAsEstateManager,
    /// the viewer bridge is being created
    CreatingBridge,
    /// the viewer bridge was created
    BridgeCreated,
    /// the viewer bridge is being created already
    BridgeCreationInProgress,
    /// the viewer bridge failed to attach
    BridgeFailedToAttach,
    /// the viewer bridge failed to attach because its point was in use
    BridgeFailedToAttachDueToBridgeAttachmentPointInUse,
    /// the viewer bridge was not created
    BridgeNotCreated,
    /// the viewer bridge was detached
    BridgeDetached,
    /// the viewer bridge object was not found
    BridgeObjectNotFoundCantProceedWithCreation,
    /// an object could not be placed at the location asked for
    FailedToPlaceObjectAtSpecifiedLocation,
    /// the number of scripts in the region changed
    ScriptCountChanged {
        /// the number before
        previous_script_count: u32,
        /// the number now
        current_script_count: u32,
        /// the change
        change: i32,
    },
    /// a message to a multi-person chat is still being processed
    MultiPersonChatMessageStillBeingProcessed,
    /// a message to an ended IM session is still being processed
    ChatMessageToNoLongerExistingImSessionStillBeingProcessed,
    /// a message to a conference is still being processed
    ConferenceChatMessageStillBeingProcessed {
        /// the avatar whose conference it is
        avatar_name: String,
    },
    /// a message to a group chat is still being processed
    GroupChatMessageStillBeingProcessed {
        /// the name of the group
        group_name: String,
    },
    /// an avatar declined your voice call
    AvatarDeclinedVoice {
        /// the avatar, as written before the notice
        avatar_name: String,
    },
    /// an avatar was not available for your voice call
    AvatarUnavailableForVoice {
        /// the avatar, as written before the notice
        avatar_name: String,
    },
    /// audio from a domain will always be played
    AudioFromDomainWillAlwaysBePlayed {
        /// the domain
        domain: String,
    },
    /// the object is not for sale
    ObjectNotForSale,
    /// requested inventory could not be created
    CanNotCreateRequestedInventory,
    /// a link failed because the pieces are too far apart
    LinkFailedDueToPieceDistance {
        /// how many pieces failed to link, if written
        link_failed_pieces: Option<usize>,
        /// how many pieces were selected, if written
        total_selected_pieces: Option<usize>,
    },
    /// an object could not be rezzed because the parcel is full
    RezObjectFailedDueToFullParcel {
        /// the name of the object
        object_name: String,
        /// the name of the parcel
        parcel_name: String,
        /// where the object was to be rezzed
        attempted_rez_location: RegionCoordinates,
        /// the name of the region
        region_name: String,
    },
    /// an object could not be created because the region is full
    CreateObjectFailedDueToFullRegion,
    /// your object was returned to your Lost and Found folder
    YourObjectHasBeenReturned {
        /// the name of the object
        object_name: String,
        /// the name of the parcel it was returned from
        parcel_name: String,
        /// where it was
        location: UnconstrainedLocation,
        /// whether the parcel returned it automatically
        auto_return: bool,
    },
    /// you may not create objects here
    PermissionToCreateObjectDenied,
    /// you may not rez an object here
    PermissionToRezObjectDenied {
        /// the name of the object
        object_name: String,
        /// the name of the parcel
        parcel_name: String,
        /// where the object was to be rezzed
        attempted_rez_location: RegionCoordinates,
        /// the name of the region
        region_name: String,
    },
    /// you may not reposition the object
    PermissionToRepositionDenied,
    /// you may not rotate the object
    PermissionToRotateDenied,
    /// you may not rescale the object
    PermissionToRescaleDenied,
    /// you may not unlink without build rights on all parcels
    PermissionToUnlinkDeniedDueToMissingParcelBuildPermissions,
    /// you may not view the script
    PermissionToViewScriptDenied,
    /// you may not view the notecard
    PermissionToViewNotecardDenied,
    /// you may not change the shape
    PermissionToChangeShapeDenied,
    /// you may not enter the parcel
    PermissionToEnterParcelDenied,
    /// you may not enter the parcel because you are banned
    PermissionToEnterParcelDeniedDueToBan,
    /// you ejected an avatar
    EjectedAvatar,
    /// you were ejected from a parcel
    EjectedFromParcel,
    /// you were ejected from a parcel you may no longer be on
    EjectedFromParcelBecauseNoLongerAllowed,
    /// you were banned from a parcel for a while
    BannedFromParcelTemporarily {
        /// how long, in minutes
        ban_duration_minutes: i64,
    },
    /// you were banned from a parcel without end
    BannedFromParcelIndefinitely,
    /// only members of a group may visit the area
    OnlyGroupMembersCanVisitThisArea,
    /// an RLV restriction stopped a teleport
    UnableToTeleportDueToRlv,
    /// an RLV restriction stopped opening a texture
    UnableToOpenTextureDueToRlv,
    /// the clicked SLurl is not supported
    UnsupportedSlurl,
    /// a SLurl from an untrusted browser was blocked
    BlockedUntrustedBrowserSlurl,
    /// the grid status message could not be read
    GridStatusErrorInvalidMessageFormat,
    /// the object to report script info on is invalid or out of range
    ScriptInfoObjectInvalidOrOutOfRange,
    /// the scripts of an object or avatar
    ScriptInfo {
        /// the name of the object or avatar
        name: String,
        /// how many scripts run
        running_scripts: usize,
        /// how many scripts there are
        total_scripts: usize,
        /// the memory limit, in KB
        allowed_memory_size_limit_kb: u64,
        /// the CPU time used, in milliseconds
        cpu_time_consumed_ms: Decimal,
    },
    /// the extended facts about an inspected object
    ExtendedScriptInfo {
        /// the facts
        info: Box<ExtendedScriptInfo>,
    },
    /// how to use the dice roll command
    DiceRollCommandUsageInstructions,
    /// the result of one roll of dice
    DiceRollResult {
        /// which roll of several
        roll_number: usize,
        /// how many faces the dice have
        dice_faces: usize,
        /// the result
        roll_result: usize,
    },
    /// the sum of several rolls of dice
    DiceRollResultSum {
        /// the number of rolls
        roll_count: usize,
        /// how many faces the dice have
        dice_faces: usize,
        /// the sum
        result_sum: usize,
    },
    /// texture info on an object follows
    TextureInfoForObject {
        /// the name of the object
        object_name: String,
    },
    /// the texture of one face
    TextureInfoForFace {
        /// the face
        face_number: usize,
        /// the width of the texture
        texture_width: u16,
        /// the height of the texture
        texture_height: u16,
        /// `opaque` or `alpha`
        texture_type: String,
    },
    /// a message of the Firestorm team
    FirestormMessage {
        /// the kind of message (`Tip`, `Help`, `Classes`, ...)
        message_type: String,
        /// the message
        message: String,
    },
    /// an event reported by the grid status page
    GridStatusEvent {
        /// the title
        title: String,
        /// whether it is scheduled
        scheduled: bool,
        /// the body
        body: String,
        /// the URL of the incident
        incident_url: String,
    },
    /// a message with a link at its end
    SystemMessageWithLink {
        /// the text before the link
        message: String,
        /// the link
        link: String,
    },
    /// holiday wishes of the Firestorm team
    FirestormHolidayWishes {
        /// the message
        message: String,
    },
    /// a warning about phishing
    PhishingWarning {
        /// the message
        message: String,
    },
    /// the message of the day of a test version of Firestorm
    TestMessageOfTheDay,
    /// a notice while Firestorm starts
    EarlyFirestormStartupMessage {
        /// the message
        message: String,
    },
    /// any other system message
    OtherSystemMessage {
        /// the message
        message: String,
    },
}

/// the number of system messages that are a fixed text
pub const LITERAL_SYSTEM_MESSAGES: usize = 50;

/// the fixed text of system message `k`, in the order the rules try them
pub open spec fn spec_literal_text(k: int) -> Seq<char> {
    if k == 0 {
        "Attachment has been saved"@
    } else if k == 1 {
        "Home position set."@
    } else if k == 2 {
        "Land has been divided."@
    } else if k == 3 {
        "You have been added to the group."@
    } else if k == 4 {
        "Unable to invite user because you are not in that group."@
    } else if k == 5 {
        "The region you are in now is about to restart. If you stay in this region you will be logged out."@
    } else if k == 6 {
        "Select residents to share with."@
    } else if k == 7 {
        "Items successfully shared."@
    } else if k == 8 {
        "DoubleClick Teleport enabled."@
    } else if k == 9 {
        "DoubleClick Teleport disabled."@
    } else if k == 10 {
        "Always Run enabled."@
    } else if k == 11 {
        "Always Run disabled."@
    } else if k == 12 {
        "You have been added as an estate manager."@
    } else if k == 13 {
        "Creating the bridge. This might take a moment, please wait."@
    } else if k == 14 {
        "Creating the bridge. This might take a few moments, please wait"@
    } else if k == 15 {
        "Bridge created."@
    } else if k == 16 {
        "Bridge creation in process, cannot start another. Please wait a few minutes before trying again."@
    } else if k == 17 {
        "Bridge object not found. Can't proceed with creation, exiting."@
    } else if k == 18 {
        "Bridge failed to attach. This is not the current bridge version. Please use the Firestorm 'Avatar/Avatar Health/Recreate Bridge' menu option to recreate the bridge."@
    } else if k == 19 {
        "Bridge failed to attach. Something else was using the bridge attachment point. Please try to recreate the bridge."@
    } else if k == 20 {
        "Bridge failed to attach. Something else was using the bridge attachment point. Please use the Firestorm 'Avatar/Avatar Health/Recreate Bridge' menu option to recreate the bridge."@
    } else if k == 21 {
        "Bridge not created. The bridge couldn't be found in inventory. Please use the Firestorm 'Avatar/Avatar Health/Recreate Bridge' menu option to recreate the bridge."@
    } else if k == 22 {
        "Bridge detached."@
    } else if k == 23 {
        "Failed to place object at specified location.  Please try again."@
    } else if k == 24 {
        "This object is not for sale."@
    } else if k == 25 {
        "Cannot create requested inventory."@
    } else if k == 26 {
        "Link failed -- Unable to link any pieces - pieces are too far apart."@
    } else if k == 27 {
        "Unable to create requested object. The region is full."@
    } else if k == 28 {
        "You cannot create objects here.  The owner of this land does not allow it.  Use the land tool to see land ownership."@
    } else if k == 29 {
        "Can't reposition -- permission denied"@
    } else if k == 30 {
        "Can't rotate -- permission denied"@
    } else if k == 31 {
        "Can't rescale -- permission denied"@
    } else if k == 32 {
        "Failed to unlink because you do not have permissions to build on all parcels"@
    } else if k == 33 {
        "Insufficient permissions to view the script."@
    } else if k == 34 {
        "You do not have permission to view this notecard."@
    } else if k == 35 {
        "You are not allowed to change this shape."@
    } else if k == 36 {
        "Cannot enter parcel, you are not on the access list."@
    } else if k == 37 {
        "Cannot enter parcel, you have been banned."@
    } else if k == 38 {
        "Avatar ejected."@
    } else if k == 39 {
        "You have been ejected from this land."@
    } else if k == 40 {
        "You are no longer allowed here and have been ejected."@
    } else if k == 41 {
        "You have been banned indefinitely"@
    } else if k == 42 {
        "Only members of a certain group can visit this area."@
    } else if k == 43 {
        "Unable to initiate teleport due to RLV restrictions"@
    } else if k == 44 {
        "Unable to open texture due to RLV restrictions"@
    } else if k == 45 {
        "The SLurl you clicked on is not supported."@
    } else if k == 46 {
        "A SLurl was received from an untrusted browser and has been blocked for your security"@
    } else if k == 47 {
        "SL Grid Status error: Invalid message format. Try again later."@
    } else if k == 48 {
        "Script info: Object to check is invalid or out of range."@
    } else {
        "You must provide positive values for dice (max 100) and faces (max 1000)."@
    }
}

/// the system message whose fixed text is number `k`
pub open spec fn spec_literal_message(k: int) -> SystemMessage {
    if k == 0 {
        SystemMessage::AttachmentSavedMessage
    } else if k == 1 {
        SystemMessage::HomePositionSet
    } else if k == 2 {
        SystemMessage::LandDivided
    } else if k == 3 {
        SystemMessage::AddedToGroup
    } else if k == 4 {
        SystemMessage::UnableToInviteUserDueToMissingGroupMembership
    } else if k == 5 {
        SystemMessage::RegionRestart
    } else if k == 6 {
        SystemMessage::SelectResidentsToShareWith
    } else if k == 7 {
        SystemMessage::ItemsSuccessfullyShared
    } else if k == 8 {
        SystemMessage::DoubleClickTeleport { enabled: true }
    } else if k == 9 {
        SystemMessage::DoubleClickTeleport { enabled: false }
    } else if k == 10 {
        SystemMessage::AlwaysRun { enabled: true }
    } else if k == 11 {
        SystemMessage::AlwaysRun { enabled: false }
    } else if k == 12 {
        SystemMessage::AddedAsEstateManager
    } else if k == 13 {
        SystemMessage::CreatingBridge
    } else if k == 14 {
        SystemMessage::CreatingBridge
    } else if k == 15 {
        SystemMessage::BridgeCreated
    } else if k == 16 {
        SystemMessage::BridgeCreationInProgress
    } else if k == 17 {
        SystemMessage::BridgeObjectNotFoundCantProceedWithCreation
    } else if k == 18 {
        SystemMessage::BridgeFailedToAttach
    } else if k == 19 {
        SystemMessage::BridgeFailedToAttachDueToBridgeAttachmentPointInUse
    } else if k == 20 {
        SystemMessage::BridgeFailedToAttachDueToBridgeAttachmentPointInUse
    } else if k == 21 {
        SystemMessage::BridgeNotCreated
    } else if k == 22 {
        SystemMessage::BridgeDetached
    } else if k == 23 {
        SystemMessage::FailedToPlaceObjectAtSpecifiedLocation
    } else if k == 24 {
        SystemMessage::ObjectNotForSale
    } else if k == 25 {
        SystemMessage::CanNotCreateRequestedInventory
    } else if k == 26 {
        SystemMessage::LinkFailedDueToPieceDistance { link_failed_pieces: None, total_selected_pieces: None }
    } else if k == 27 {
        SystemMessage::CreateObjectFailedDueToFullRegion
    } else if k == 28 {
        SystemMessage::PermissionToCreateObjectDenied
    } else if k == 29 {
        SystemMessage::PermissionToRepositionDenied
    } else if k == 30 {
        SystemMessage::PermissionToRotateDenied
    } else if k == 31 {
        SystemMessage::PermissionToRescaleDenied
    } else if k == 32 {
        SystemMessage::PermissionToUnlinkDeniedDueToMissingParcelBuildPermissions
    } else if k == 33 {
        SystemMessage::PermissionToViewScriptDenied
    } else if k == 34 {
        SystemMessage::PermissionToViewNotecardDenied
    } else if k == 35 {
        SystemMessage::PermissionToChangeShapeDenied
    } else if k == 36 {
        SystemMessage::PermissionToEnterParcelDenied
    } else if k == 37 {
        SystemMessage::PermissionToEnterParcelDeniedDueToBan
    } else if k == 38 {
        SystemMessage::EjectedAvatar
    } else if k == 39 {
        SystemMessage::EjectedFromParcel
    } else if k == 40 {
        SystemMessage::EjectedFromParcelBecauseNoLongerAllowed
    } else if k == 41 {
        SystemMessage::BannedFromParcelIndefinitely
    } else if k == 42 {
        SystemMessage::OnlyGroupMembersCanVisitThisArea
    } else if k == 43 {
        SystemMessage::UnableToTeleportDueToRlv
    } else if k == 44 {
        SystemMessage::UnableToOpenTextureDueToRlv
    } else if k == 45 {
        SystemMessage::UnsupportedSlurl
    } else if k == 46 {
        SystemMessage::BlockedUntrustedBrowserSlurl
    } else if k == 47 {
        SystemMessage::GridStatusErrorInvalidMessageFormat
    } else if k == 48 {
        SystemMessage::ScriptInfoObjectInvalidOrOutOfRange
    } else {
        SystemMessage::DiceRollCommandUsageInstructions
    }
}

/// each fixed-text message is read from its own text: the message a
/// fixed text gives is the one that text names (`Always Run enabled.` gives
/// Always Run enabled, `Always Run disabled.` gives it disabled, and so on),
/// stated as the text each message comes from
#[verifier::rlimit(80)]
pub proof fn lemma_literal_messages_follow_texts(k: int)
    requires
        0 <= k < LITERAL_SYSTEM_MESSAGES,
    ensures
        spec_literal_message(k) == SystemMessage::AttachmentSavedMessage ==> (spec_literal_text(k) == "Attachment has been saved"@),
        spec_literal_message(k) == SystemMessage::HomePositionSet ==> (spec_literal_text(k) == "Home position set."@),
        spec_literal_message(k) == SystemMessage::LandDivided ==> (spec_literal_text(k) == "Land has been divided."@),
        spec_literal_message(k) == SystemMessage::AddedToGroup ==> (spec_literal_text(k) == "You have been added to the group."@),
        spec_literal_message(k) == SystemMessage::UnableToInviteUserDueToMissingGroupMembership ==> (spec_literal_text(k) == "Unable to invite user because you are not in that group."@),
        spec_literal_message(k) == SystemMessage::RegionRestart ==> (spec_literal_text(k) == "The region you are in now is about to restart. If you stay in this region you will be logged out."@),
        spec_literal_message(k) == SystemMessage::SelectResidentsToShareWith ==> (spec_literal_text(k) == "Select residents to share with."@),
        spec_literal_message(k) == SystemMessage::ItemsSuccessfullyShared ==> (spec_literal_text(k) == "Items successfully shared."@),
        spec_literal_message(k) == (SystemMessage::DoubleClickTeleport { enabled: true }) ==> (spec_literal_text(k) == "DoubleClick Teleport enabled."@),
        spec_literal_message(k) == (SystemMessage::DoubleClickTeleport { enabled: false }) ==> (spec_literal_text(k) == "DoubleClick Teleport disabled."@),
        spec_literal_message(k) == (SystemMessage::AlwaysRun { enabled: true }) ==> (spec_literal_text(k) == "Always Run enabled."@),
        spec_literal_message(k) == (SystemMessage::AlwaysRun { enabled: false }) ==> (spec_literal_text(k) == "Always Run disabled."@),
        spec_literal_message(k) == SystemMessage::AddedAsEstateManager ==> (spec_literal_text(k) == "You have been added as an estate manager."@),
        spec_literal_message(k) == SystemMessage::CreatingBridge ==> (spec_literal_text(k) == "Creating the bridge. This might take a moment, please wait."@ || spec_literal_text(k) == "Creating the bridge. This might take a few moments, please wait"@),
        spec_literal_message(k) == SystemMessage::BridgeCreated ==> (spec_literal_text(k) == "Bridge created."@),
        spec_literal_message(k) == SystemMessage::BridgeCreationInProgress ==> (spec_literal_text(k) == "Bridge creation in process, cannot start another. Please wait a few minutes before trying again."@),
        spec_literal_message(k) == SystemMessage::BridgeObjectNotFoundCantProceedWithCreation ==> (spec_literal_text(k) == "Bridge object not found. Can't proceed with creation, exiting."@),
        spec_literal_message(k) == SystemMessage::BridgeFailedToAttach ==> (spec_literal_text(k) == "Bridge failed to attach. This is not the current bridge version. Please use the Firestorm 'Avatar/Avatar Health/Recreate Bridge' menu option to recreate the bridge."@),
        spec_literal_message(k) == SystemMessage::BridgeFailedToAttachDueToBridgeAttachmentPointInUse ==> (spec_literal_text(k) == "Bridge failed to attach. Something else was using the bridge attachment point. Please try to recreate the bridge."@ || spec_literal_text(k) == "Bridge failed to attach. Something else was using the bridge attachment point. Please use the Firestorm 'Avatar/Avatar Health/Recreate Bridge' menu option to recreate the bridge."@),
        spec_literal_message(k) == SystemMessage::BridgeNotCreated ==> (spec_literal_text(k) == "Bridge not created. The bridge couldn't be found in inventory. Please use the Firestorm 'Avatar/Avatar Health/Recreate Bridge' menu option to recreate the bridge."@),
        spec_literal_message(k) == SystemMessage::BridgeDetached ==> (spec_literal_text(k) == "Bridge detached."@),
        spec_literal_message(k) == SystemMessage::FailedToPlaceObjectAtSpecifiedLocation ==> (spec_literal_text(k) == "Failed to place object at specified location.  Please try again."@),
        spec_literal_message(k) == SystemMessage::ObjectNotForSale ==> (spec_literal_text(k) == "This object is not for sale."@),
        spec_literal_message(k) == SystemMessage::CanNotCreateRequestedInventory ==> (spec_literal_text(k) == "Cannot create requested inventory."@),
        spec_literal_message(k) == (SystemMessage::LinkFailedDueToPieceDistance { link_failed_pieces: None, total_selected_pieces: None }) ==> (spec_literal_text(k) == "Link failed -- Unable to link any pieces - pieces are too far apart."@),
        spec_literal_message(k) == SystemMessage::CreateObjectFailedDueToFullRegion ==> (spec_literal_text(k) == "Unable to create requested object. The region is full."@),
        spec_literal_message(k) == SystemMessage::PermissionToCreateObjectDenied ==> (spec_literal_text(k) == "You cannot create objects here.  The owner of this land does not allow it.  Use the land tool to see land ownership."@),
        spec_literal_message(k) == SystemMessage::PermissionToRepositionDenied ==> (spec_literal_text(k) == "Can't reposition -- permission denied"@),
        spec_literal_message(k) == SystemMessage::PermissionToRotateDenied ==> (spec_literal_text(k) == "Can't rotate -- permission denied"@),
        spec_literal_message(k) == SystemMessage::PermissionToRescaleDenied ==> (spec_literal_text(k) == "Can't rescale -- permission denied"@),
        spec_literal_message(k) == SystemMessage::PermissionToUnlinkDeniedDueToMissingParcelBuildPermissions ==> (spec_literal_text(k) == "Failed to unlink because you do not have permissions to build on all parcels"@),
        spec_literal_message(k) == SystemMessage::PermissionToViewScriptDenied ==> (spec_literal_text(k) == "Insufficient permissions to view the script."@),
        spec_literal_message(k) == SystemMessage::PermissionToViewNotecardDenied ==> (spec_literal_text(k) == "You do not have permission to view this notecard."@),
        spec_literal_message(k) == SystemMessage::PermissionToChangeShapeDenied ==> (spec_literal_text(k) == "You are not allowed to change this shape."@),
        spec_literal_message(k) == SystemMessage::PermissionToEnterParcelDenied ==> (spec_literal_text(k) == "Cannot enter parcel, you are not on the access list."@),
        spec_literal_message(k) == SystemMessage::PermissionToEnterParcelDeniedDueToBan ==> (spec_literal_text(k) == "Cannot enter parcel, you have been banned."@),
        spec_literal_message(k) == SystemMessage::EjectedAvatar ==> (spec_literal_text(k) == "Avatar ejected."@),
        spec_literal_message(k) == SystemMessage::EjectedFromParcel ==> (spec_literal_text(k) == "You have been ejected from this land."@),
        spec_literal_message(k) == SystemMessage::EjectedFromParcelBecauseNoLongerAllowed ==> (spec_literal_text(k) == "You are no longer allowed here and have been ejected."@),
        spec_literal_message(k) == SystemMessage::BannedFromParcelIndefinitely ==> (spec_literal_text(k) == "You have been banned indefinitely"@),
        spec_literal_message(k) == SystemMessage::OnlyGroupMembersCanVisitThisArea ==> (spec_literal_text(k) == "Only members of a certain group can visit this area."@),
        spec_literal_message(k) == SystemMessage::UnableToTeleportDueToRlv ==> (spec_literal_text(k) == "Unable to initiate teleport due to RLV restrictions"@),
        spec_literal_message(k) == SystemMessage::UnableToOpenTextureDueToRlv ==> (spec_literal_text(k) == "Unable to open texture due to RLV restrictions"@),
        spec_literal_message(k) == SystemMessage::UnsupportedSlurl ==> (spec_literal_text(k) == "The SLurl you clicked on is not supported."@),
        spec_literal_message(k) == SystemMessage::BlockedUntrustedBrowserSlurl ==> (spec_literal_text(k) == "A SLurl was received from an untrusted browser and has been blocked for your security"@),
        spec_literal_message(k) == SystemMessage::GridStatusErrorInvalidMessageFormat ==> (spec_literal_text(k) == "SL Grid Status error: Invalid message format. Try again later."@),
        spec_literal_message(k) == SystemMessage::ScriptInfoObjectInvalidOrOutOfRange ==> (spec_literal_text(k) == "Script info: Object to check is invalid or out of range."@),
        spec_literal_message(k) == SystemMessage::DiceRollCommandUsageInstructions ==> (spec_literal_text(k) == "You must provide positive values for dice (max 100) and faces (max 1000)."@),
{
    if k == 0 {
    } else if k == 1 {
    } else if k == 2 {
    } else if k == 3 {
    } else if k == 4 {
    } else if k == 5 {
    } else if k == 6 {
    } else if k == 7 {
    } else if k == 8 {
    } else if k == 9 {
    } else if k == 10 {
    } else if k == 11 {
    } else if k == 12 {
    } else if k == 13 {
    } else if k == 14 {
    } else if k == 15 {
    } else if k == 16 {
    } else if k == 17 {
    } else if k == 18 {
    } else if k == 19 {
    } else if k == 20 {
    } else if k == 21 {
    } else if k == 22 {
    } else if k == 23 {
    } else if k == 24 {
    } else if k == 25 {
    } else if k == 26 {
    } else if k == 27 {
    } else if k == 28 {
    } else if k == 29 {
    } else if k == 30 {
    } else if k == 31 {
    } else if k == 32 {
    } else if k == 33 {
    } else if k == 34 {
    } else if k == 35 {
    } else if k == 36 {
    } else if k == 37 {
    } else if k == 38 {
    } else if k == 39 {
    } else if k == 40 {
    } else if k == 41 {
    } else if k == 42 {
    } else if k == 43 {
    } else if k == 44 {
    } else if k == 45 {
    } else if k == 46 {
    } else if k == 47 {
    } else if k == 48 {
    } else if k == 49 {
    }
}

/// the fixed text of system message `k`
fn literal_text(k: usize) -> (r: &'static str)
    requires
        k < LITERAL_SYSTEM_MESSAGES,
    ensures
        r@ == spec_literal_text(k as int),
{
    match k {
        0 => "Attachment has been saved",
        1 => "Home position set.",
        2 => "Land has been divided.",
        3 => "You have been added to the group.",
        4 => "Unable to invite user because you are not in that group.",
        5 => "The region you are in now is about to restart. If you stay in this region you will be logged out.",
        6 => "Select residents to share with.",
        7 => "Items successfully shared.",
        8 => "DoubleClick Teleport enabled.",
        9 => "DoubleClick Teleport disabled.",
        10 => "Always Run enabled.",
        11 => "Always Run disabled.",
        12 => "You have been added as an estate manager.",
        13 => "Creating the bridge. This might take a moment, please wait.",
        14 => "Creating the bridge. This might take a few moments, please wait",
        15 => "Bridge created.",
        16 => "Bridge creation in process, cannot start another. Please wait a few minutes before trying again.",
        17 => "Bridge object not found. Can't proceed with creation, exiting.",
        18 => "Bridge failed to attach. This is not the current bridge version. Please use the Firestorm 'Avatar/Avatar Health/Recreate Bridge' menu option to recreate the bridge.",
        19 => "Bridge failed to attach. Something else was using the bridge attachment point. Please try to recreate the bridge.",
        20 => "Bridge failed to attach. Something else was using the bridge attachment point. Please use the Firestorm 'Avatar/Avatar Health/Recreate Bridge' menu option to recreate the bridge.",
        21 => "Bridge not created. The bridge couldn't be found in inventory. Please use the Firestorm 'Avatar/Avatar Health/Recreate Bridge' menu option to recreate the bridge.",
        22 => "Bridge detached.",
        23 => "Failed to place object at specified location.  Please try again.",
        24 => "This object is not for sale.",
        25 => "Cannot create requested inventory.",
        26 => "Link failed -- Unable to link any pieces - pieces are too far apart.",
        27 => "Unable to create requested object. The region is full.",
        28 => "You cannot create objects here.  The owner of this land does not allow it.  Use the land tool to see land ownership.",
        29 => "Can't reposition -- permission denied",
        30 => "Can't rotate -- permission denied",
        31 => "Can't rescale -- permission denied",
        32 => "Failed to unlink because you do not have permissions to build on all parcels",
        33 => "Insufficient permissions to view the script.",
        34 => "You do not have permission to view this notecard.",
        35 => "You are not allowed to change this shape.",
        36 => "Cannot enter parcel, you are not on the access list.",
        37 => "Cannot enter parcel, you have been banned.",
        38 => "Avatar ejected.",
        39 => "You have been ejected from this land.",
        40 => "You are no longer allowed here and have been ejected.",
        41 => "You have been banned indefinitely",
        42 => "Only members of a certain group can visit this area.",
        43 => "Unable to initiate teleport due to RLV restrictions",
        44 => "Unable to open texture due to RLV restrictions",
        45 => "The SLurl you clicked on is not supported.",
        46 => "A SLurl was received from an untrusted browser and has been blocked for your security",
        47 => "SL Grid Status error: Invalid message format. Try again later.",
        48 => "Script info: Object to check is invalid or out of range.",
        _ => "You must provide positive values for dice (max 100) and faces (max 1000).",
    }
}

/// the system message whose fixed text is number `k`
fn literal_message(k: usize) -> (r: SystemMessage)
    requires
        k < LITERAL_SYSTEM_MESSAGES,
    ensures
        r == spec_literal_message(k as int),
{
    match k {
        0 => SystemMessage::AttachmentSavedMessage,
        1 => SystemMessage::HomePositionSet,
        2 => SystemMessage::LandDivided,
        3 => SystemMessage::AddedToGroup,
        4 => SystemMessage::UnableToInviteUserDueToMissingGroupMembership,
        5 => SystemMessage::RegionRestart,
        6 => SystemMessage::SelectResidentsToShareWith,
        7 => SystemMessage::ItemsSuccessfullyShared,
        8 => SystemMessage::DoubleClickTeleport { enabled: true },
        9 => SystemMessage::DoubleClickTeleport { enabled: false },
        10 => SystemMessage::AlwaysRun { enabled: true },
        11 => SystemMessage::AlwaysRun { enabled: false },
        12 => SystemMessage::AddedAsEstateManager,
        13 => SystemMessage::CreatingBridge,
        14 => SystemMessage::CreatingBridge,
        15 => SystemMessage::BridgeCreated,
        16 => SystemMessage::BridgeCreationInProgress,
        17 => SystemMessage::BridgeObjectNotFoundCantProceedWithCreation,
        18 => SystemMessage::BridgeFailedToAttach,
        19 => SystemMessage::BridgeFailedToAttachDueToBridgeAttachmentPointInUse,
        20 => SystemMessage::BridgeFailedToAttachDueToBridgeAttachmentPointInUse,
        21 => SystemMessage::BridgeNotCreated,
        22 => SystemMessage::BridgeDetached,
        23 => SystemMessage::FailedToPlaceObjectAtSpecifiedLocation,
        24 => SystemMessage::ObjectNotForSale,
        25 => SystemMessage::CanNotCreateRequestedInventory,
        26 => SystemMessage::LinkFailedDueToPieceDistance { link_failed_pieces: None, total_selected_pieces: None },
        27 => SystemMessage::CreateObjectFailedDueToFullRegion,
        28 => SystemMessage::PermissionToCreateObjectDenied,
        29 => SystemMessage::PermissionToRepositionDenied,
        30 => SystemMessage::PermissionToRotateDenied,
        31 => SystemMessage::PermissionToRescaleDenied,
        32 => SystemMessage::PermissionToUnlinkDeniedDueToMissingParcelBuildPermissions,
        33 => SystemMessage::PermissionToViewScriptDenied,
        34 => SystemMessage::PermissionToViewNotecardDenied,
        35 => SystemMessage::PermissionToChangeShapeDenied,
        36 => SystemMessage::PermissionToEnterParcelDenied,
        37 => SystemMessage::PermissionToEnterParcelDeniedDueToBan,
        38 => SystemMessage::EjectedAvatar,
        39 => SystemMessage::EjectedFromParcel,
        40 => SystemMessage::EjectedFromParcelBecauseNoLongerAllowed,
        41 => SystemMessage::BannedFromParcelIndefinitely,
        42 => SystemMessage::OnlyGroupMembersCanVisitThisArea,
        43 => SystemMessage::UnableToTeleportDueToRlv,
        44 => SystemMessage::UnableToOpenTextureDueToRlv,
        45 => SystemMessage::UnsupportedSlurl,
        46 => SystemMessage::BlockedUntrustedBrowserSlurl,
        47 => SystemMessage::GridStatusErrorInvalidMessageFormat,
        48 => SystemMessage::ScriptInfoObjectInvalidOrOutOfRange,
        _ => SystemMessage::DiceRollCommandUsageInstructions,
    }
}

/// the first of the fixed texts `a` to `b - 1` that occurs at index `i`
pub open spec fn spec_literal_first(s: Seq<char>, i: int, a: int, b: int) -> Option<int>
    decreases b - a,
{
    if a >= b {
        None
    } else if lit_at(s, i, spec_literal_text(a)) {
        Some(a)
    } else {
        spec_literal_first(s, i, a + 1, b)
    }
}

/// `m` is the message of the first of the fixed texts `a` to `b - 1` that
/// occurs at index `i`
pub open spec fn literal_is(s: Seq<char>, i: int, a: int, b: int, m: SystemMessage) -> bool {
    match spec_literal_first(s, i, a, b) {
        Some(k) => m == spec_literal_message(k),
        None => false,
    }
}

/// the message of the first of the fixed texts `a` to `b - 1` that occurs
/// at index `i`, if any does
pub fn literal_range_at(s: &Vec<char>, i: usize, a: usize, b: usize) -> (r: Option<SystemMessage>)
    requires
        a <= b <= LITERAL_SYSTEM_MESSAGES,
    ensures
        r is Some <==> spec_literal_first(s@, i as int, a as int, b as int) is Some,
        r matches Some(m) ==> literal_is(s@, i as int, a as int, b as int, m),
{
    let mut k = a;
    while k < b
        invariant
            a <= k <= b <= LITERAL_SYSTEM_MESSAGES,
            spec_literal_first(s@, i as int, a as int, b as int) == spec_literal_first(
                s@,
                i as int,
                k as int,
                b as int,
            ),
        decreases b - k,
    {
        if lit_at_exec(s, i, literal_text(k)) {
            return Some(literal_message(k));
        }
        k = k + 1;
    }
    None
}

/// the message `Attachment has been saved` at index `i`
pub fn attachment_saved_message_parser(s: &Vec<char>, i: usize) -> (r: Option<SystemMessage>)
    ensures
        r is Some <==> spec_literal_first(s@, i as int, 0, 1) is Some,
        r matches Some(m) ==> literal_is(s@, i as int, 0, 1, m),
{
    literal_range_at(s, i, 0, 1)
}

/// the message `Home position set.` at index `i`
pub fn home_position_set_message_parser(s: &Vec<char>, i: usize) -> (r: Option<SystemMessage>)
    ensures
        r is Some <==> spec_literal_first(s@, i as int, 1, 2) is Some,
        r matches Some(m) ==> literal_is(s@, i as int, 1, 2, m),
{
    literal_range_at(s, i, 1, 2)
}

/// the message `Land has been divided.` at index `i`
pub fn land_divided_message_parser(s: &Vec<char>, i: usize) -> (r: Option<SystemMessage>)
    ensures
        r is Some <==> spec_literal_first(s@, i as int, 2, 3) is Some,
        r matches Some(m) ==> literal_is(s@, i as int, 2, 3, m),
{
    literal_range_at(s, i, 2, 3)
}

/// the message `Unable to invite user because you are not in that group.` at index `i`
pub fn unable_to_invite_user_due_to_missing_group_membership_message_parser(s: &Vec<char>, i: usize) -> (r: Option<SystemMessage>)
    ensures
        r is Some <==> spec_literal_first(s@, i as int, 4, 5) is Some,
        r matches Some(m) ==> literal_is(s@, i as int, 4, 5, m),
{
    literal_range_at(s, i, 4, 5)
}

/// the message `The region you are in now is about to restart. If you stay in this region you will be logged out.` at index `i`
pub fn region_restart_message_parser(s: &Vec<char>, i: usize) -> (r: Option<SystemMessage>)
    ensures
        r is Some <==> spec_literal_first(s@, i as int, 5, 6) is Some,
        r matches Some(m) ==> literal_is(s@, i as int, 5, 6, m),
{
    literal_range_at(s, i, 5, 6)
}

/// the message `Select residents to share with.` at index `i`
pub fn select_residents_to_share_with_message_parser(s: &Vec<char>, i: usize) -> (r: Option<SystemMessage>)
    ensures
        r is Some <==> spec_literal_first(s@, i as int, 6, 7) is Some,
        r matches Some(m) ==> literal_is(s@, i as int, 6, 7, m),
{
    literal_range_at(s, i, 6, 7)
}

/// the message `Items successfully shared.` at index `i`
pub fn items_successfully_shared_message_parser(s: &Vec<char>, i: usize) -> (r: Option<SystemMessage>)
    ensures
        r is Some <==> spec_literal_first(s@, i as int, 7, 8) is Some,
        r matches Some(m) ==> literal_is(s@, i as int, 7, 8, m),
{
    literal_range_at(s, i, 7, 8)
}

/// one of the fixed messages 8 to 9 of the table (`DoubleClick Teleport enabled.`, ...) at index `i`
pub fn doubleclick_teleport_message_parser(s: &Vec<char>, i: usize) -> (r: Option<SystemMessage>)
    ensures
        r is Some <==> spec_literal_first(s@, i as int, 8, 10) is Some,
        r matches Some(m) ==> literal_is(s@, i as int, 8, 10, m),
{
    literal_range_at(s, i, 8, 10)
}

/// one of the fixed messages 10 to 11 of the table (`Always Run enabled.`, ...) at index `i`
pub fn always_run_message_parser(s: &Vec<char>, i: usize) -> (r: Option<SystemMessage>)
    ensures
        r is Some <==> spec_literal_first(s@, i as int, 10, 12) is Some,
        r matches Some(m) ==> literal_is(s@, i as int, 10, 12, m),
{
    literal_range_at(s, i, 10, 12)
}

/// the message `You have been added as an estate manager.` at index `i`
pub fn added_as_estate_manager_message_parser(s: &Vec<char>, i: usize) -> (r: Option<SystemMessage>)
    ensures
        r is Some <==> spec_literal_first(s@, i as int, 12, 13) is Some,
        r matches Some(m) ==> literal_is(s@, i as int, 12, 13, m),
{
    literal_range_at(s, i, 12, 13)
}

/// one of the fixed messages 13 to 22 of the table (`Creating the bridge. This might take a moment, please wait.`, ...) at index `i`
pub fn bridge_message_parser(s: &Vec<char>, i: usize) -> (r: Option<SystemMessage>)
    ensures
        r is Some <==> spec_literal_first(s@, i as int, 13, 23) is Some,
        r matches Some(m) ==> literal_is(s@, i as int, 13, 23, m),
{
    literal_range_at(s, i, 13, 23)
}

/// the message `Failed to place object at specified location.  Please try again.` at index `i`
pub fn failed_to_place_object_at_specified_location_message_parser(s: &Vec<char>, i: usize) -> (r: Option<SystemMessage>)
    ensures
        r is Some <==> spec_literal_first(s@, i as int, 23, 24) is Some,
        r matches Some(m) ==> literal_is(s@, i as int, 23, 24, m),
{
    literal_range_at(s, i, 23, 24)
}

/// the message `This object is not for sale.` at index `i`
pub fn object_not_for_sale_message_parser(s: &Vec<char>, i: usize) -> (r: Option<SystemMessage>)
    ensures
        r is Some <==> spec_literal_first(s@, i as int, 24, 25) is Some,
        r matches Some(m) ==> literal_is(s@, i as int, 24, 25, m),
{
    literal_range_at(s, i, 24, 25)
}

/// the message `Cannot create requested inventory.` at index `i`
pub fn can_not_create_requested_inventory_message_parser(s: &Vec<char>, i: usize) -> (r: Option<SystemMessage>)
    ensures
        r is Some <==> spec_literal_first(s@, i as int, 25, 26) is Some,
        r matches Some(m) ==> literal_is(s@, i as int, 25, 26, m),
{
    literal_range_at(s, i, 25, 26)
}

/// the message `Unable to create requested object. The region is full.` at index `i`
pub fn create_object_failed_due_to_full_region_message_parser(s: &Vec<char>, i: usize) -> (r: Option<SystemMessage>)
    ensures
        r is Some <==> spec_literal_first(s@, i as int, 27, 28) is Some,
        r matches Some(m) ==> literal_is(s@, i as int, 27, 28, m),
{
    literal_range_at(s, i, 27, 28)
}

/// the message `You cannot create objects here.  The owner of this land does not allow it.  Use the land tool to see land ownership.` at index `i`
pub fn permission_to_create_object_denied_message_parser(s: &Vec<char>, i: usize) -> (r: Option<SystemMessage>)
    ensures
        r is Some <==> spec_literal_first(s@, i as int, 28, 29) is Some,
        r matches Some(m) ==> literal_is(s@, i as int, 28, 29, m),
{
    literal_range_at(s, i, 28, 29)
}

/// the message `Can't reposition -- permission denied` at index `i`
pub fn permission_to_reposition_denied_message_parser(s: &Vec<char>, i: usize) -> (r: Option<SystemMessage>)
    ensures
        r is Some <==> spec_literal_first(s@, i as int, 29, 30) is Some,
        r matches Some(m) ==> literal_is(s@, i as int, 29, 30, m),
{
    literal_range_at(s, i, 29, 30)
}

/// the message `Can't rotate -- permission denied` at index `i`
pub fn permission_to_rotate_denied_message_parser(s: &Vec<char>, i: usize) -> (r: Option<SystemMessage>)
    ensures
        r is Some <==> spec_literal_first(s@, i as int, 30, 31) is Some,
        r matches Some(m) ==> literal_is(s@, i as int, 30, 31, m),
{
    literal_range_at(s, i, 30, 31)
}

/// the message `Can't rescale -- permission denied` at index `i`
pub fn permission_to_rescale_denied_message_parser(s: &Vec<char>, i: usize) -> (r: Option<SystemMessage>)
    ensures
        r is Some <==> spec_literal_first(s@, i as int, 31, 32) is Some,
        r matches Some(m) ==> literal_is(s@, i as int, 31, 32, m),
{
    literal_range_at(s, i, 31, 32)
}

/// the message `Failed to unlink because you do not have permissions to build on all parcels` at index `i`
pub fn permission_to_unlink_denied_due_to_missing_parcel_build_permissions_message_parser(s: &Vec<char>, i: usize) -> (r: Option<SystemMessage>)
    ensures
        r is Some <==> spec_literal_first(s@, i as int, 32, 33) is Some,
        r matches Some(m) ==> literal_is(s@, i as int, 32, 33, m),
{
    literal_range_at(s, i, 32, 33)
}

/// the message `Insufficient permissions to view the script.` at index `i`
pub fn permission_to_view_script_denied_message_parser(s: &Vec<char>, i: usize) -> (r: Option<SystemMessage>)
    ensures
        r is Some <==> spec_literal_first(s@, i as int, 33, 34) is Some,
        r matches Some(m) ==> literal_is(s@, i as int, 33, 34, m),
{
    literal_range_at(s, i, 33, 34)
}

/// the message `You do not have permission to view this notecard.` at index `i`
pub fn permission_to_view_notecard_denied_message_parser(s: &Vec<char>, i: usize) -> (r: Option<SystemMessage>)
    ensures
        r is Some <==> spec_literal_first(s@, i as int, 34, 35) is Some,
        r matches Some(m) ==> literal_is(s@, i as int, 34, 35, m),
{
    literal_range_at(s, i, 34, 35)
}

/// the message `You are not allowed to change this shape.` at index `i`
pub fn permission_to_change_shape_denied_message_parser(s: &Vec<char>, i: usize) -> (r: Option<SystemMessage>)
    ensures
        r is Some <==> spec_literal_first(s@, i as int, 35, 36) is Some,
        r matches Some(m) ==> literal_is(s@, i as int, 35, 36, m),
{
    literal_range_at(s, i, 35, 36)
}

/// the message `Cannot enter parcel, you are not on the access list.` at index `i`
pub fn permission_to_enter_parcel_denied_message_parser(s: &Vec<char>, i: usize) -> (r: Option<SystemMessage>)
    ensures
        r is Some <==> spec_literal_first(s@, i as int, 36, 37) is Some,
        r matches Some(m) ==> literal_is(s@, i as int, 36, 37, m),
{
    literal_range_at(s, i, 36, 37)
}

/// the message `Cannot enter parcel, you have been banned.` at index `i`
pub fn permission_to_enter_parcel_denied_due_to_ban_message_parser(s: &Vec<char>, i: usize) -> (r: Option<SystemMessage>)
    ensures
        r is Some <==> spec_literal_first(s@, i as int, 37, 38) is Some,
        r matches Some(m) ==> literal_is(s@, i as int, 37, 38, m),
{
    literal_range_at(s, i, 37, 38)
}

/// the message `Avatar ejected.` at index `i`
pub fn avatar_ejected_message_parser(s: &Vec<char>, i: usize) -> (r: Option<SystemMessage>)
    ensures
        r is Some <==> spec_literal_first(s@, i as int, 38, 39) is Some,
        r matches Some(m) ==> literal_is(s@, i as int, 38, 39, m),
{
    literal_range_at(s, i, 38, 39)
}

/// one of the fixed messages 39 to 40 of the table (`You have been ejected from this land.`, ...) at index `i`
pub fn ejected_from_parcel_message_parser(s: &Vec<char>, i: usize) -> (r: Option<SystemMessage>)
    ensures
        r is Some <==> spec_literal_first(s@, i as int, 39, 41) is Some,
        r matches Some(m) ==> literal_is(s@, i as int, 39, 41, m),
{
    literal_range_at(s, i, 39, 41)
}

/// the message `Only members of a certain group can visit this area.` at index `i`
pub fn only_group_members_can_visit_this_area_message_parser(s: &Vec<char>, i: usize) -> (r: Option<SystemMessage>)
    ensures
        r is Some <==> spec_literal_first(s@, i as int, 42, 43) is Some,
        r matches Some(m) ==> literal_is(s@, i as int, 42, 43, m),
{
    literal_range_at(s, i, 42, 43)
}

/// the message `Unable to initiate teleport due to RLV restrictions` at index `i`
pub fn unable_to_teleport_due_to_rlv_message_parser(s: &Vec<char>, i: usize) -> (r: Option<SystemMessage>)
    ensures
        r is Some <==> spec_literal_first(s@, i as int, 43, 44) is Some,
        r matches Some(m) ==> literal_is(s@, i as int, 43, 44, m),
{
    literal_range_at(s, i, 43, 44)
}

/// the message `Unable to open texture due to RLV restrictions` at index `i`
pub fn unable_to_open_texture_due_to_rlv_message_parser(s: &Vec<char>, i: usize) -> (r: Option<SystemMessage>)
    ensures
        r is Some <==> spec_literal_first(s@, i as int, 44, 45) is Some,
        r matches Some(m) ==> literal_is(s@, i as int, 44, 45, m),
{
    literal_range_at(s, i, 44, 45)
}

/// the message `The SLurl you clicked on is not supported.` at index `i`
pub fn unsupported_slurl_message_parser(s: &Vec<char>, i: usize) -> (r: Option<SystemMessage>)
    ensures
        r is Some <==> spec_literal_first(s@, i as int, 45, 46) is Some,
        r matches Some(m) ==> literal_is(s@, i as int, 45, 46, m),
{
    literal_range_at(s, i, 45, 46)
}

/// the message `A SLurl was received from an untrusted browser and has been blocked for your security` at index `i`
pub fn blocked_untrusted_browser_slurl_message_parser(s: &Vec<char>, i: usize) -> (r: Option<SystemMessage>)
    ensures
        r is Some <==> spec_literal_first(s@, i as int, 46, 47) is Some,
        r matches Some(m) ==> literal_is(s@, i as int, 46, 47, m),
{
    literal_range_at(s, i, 46, 47)
}

/// the message `SL Grid Status error: Invalid message format. Try again later.` at index `i`
pub fn grid_status_error_invalid_message_format_message_parser(s: &Vec<char>, i: usize) -> (r: Option<SystemMessage>)
    ensures
        r is Some <==> spec_literal_first(s@, i as int, 47, 48) is Some,
        r matches Some(m) ==> literal_is(s@, i as int, 47, 48, m),
{
    literal_range_at(s, i, 47, 48)
}

/// the message `Script info: Object to check is invalid or out of range.` at index `i`
pub fn script_info_object_invalid_or_out_of_range_message_parser(s: &Vec<char>, i: usize) -> (r: Option<SystemMessage>)
    ensures
        r is Some <==> spec_literal_first(s@, i as int, 48, 49) is Some,
        r matches Some(m) ==> literal_is(s@, i as int, 48, 49, m),
{
    literal_range_at(s, i, 48, 49)
}
/// `p` occurs somewhere in `m`
pub open spec fn spec_contains(m: Seq<char>, p: Seq<char>) -> bool {
    exists|i: int| lit_at(m, i, p)
}

/// whether `p` occurs somewhere in `m`
fn contains_exec(m: &Vec<char>, p: &str) -> (r: bool)
    ensures
        r == spec_contains(m@, p@),
{
    let pc = crate::chars::str_to_chars(p);
    match crate::chars::find_chars(m, &pc) {
        Some(i) => {
            proof {
                assert(lit_at(m@, i as int, p@));
            }
            true
        },
        None => {
            proof {
                assert forall|i: int| !lit_at(m@, i, p@) by {
                    assert(!crate::chars::occurs_at(m@, pc@, i));
                }
            }
            false
        },
    }
}

/// `m` ends with `p`
pub open spec fn spec_ends(m: Seq<char>, p: Seq<char>) -> bool {
    p.len() <= m.len() && lit_at(m, m.len() - p.len(), p)
}

/// the text of a startup notice of Firestorm
pub open spec fn spec_startup_notice(m: Seq<char>) -> bool {
    ||| spec_ends(m, "..."@) && (lit_at(m, 0, "Loading"@) || lit_at(m, 0, "Initializing"@) || lit_at(
        m,
        0,
        "Downloading"@,
    ) || lit_at(m, 0, "Verifying"@) || lit_at(m, 0, "Connecting"@) || lit_at(m, 0, "Decoding"@)
        || lit_at(m, 0, "Waiting"@))
    ||| m == "Welcome to Advertisement-Free Firestorm"@
    ||| lit_at(m, 0, "Logging in"@)
}

/// the placeholder message of the day of a test version of Firestorm
pub open spec fn spec_test_motd() -> Seq<char> {
    "This is a test version of Firestorm. If this were an actual release version, a real message of the day would be here. This is only a test."@
}

/// `r` is what a system message with the text `m` that no more specific
/// rule reads is classified as
#[verifier::opaque]
pub open spec fn classified_as(m: Seq<char>, r: SystemMessage) -> bool {
    if spec_contains(m, "Firestorm"@) && (spec_contains(m, "holiday"@) || spec_contains(
        m,
        "Happy New Year"@,
    )) {
        r matches SystemMessage::FirestormHolidayWishes { message } && message@ == m
    } else if spec_contains(m, "phishing"@) {
        r matches SystemMessage::PhishingWarning { message } && message@ == m
    } else if m == spec_test_motd() {
        r is TestMessageOfTheDay
    } else if spec_startup_notice(m) {
        r matches SystemMessage::EarlyFirestormStartupMessage { message } && message@ == m
    } else if spec_contains(m, "wiki.phoenixviewer.com/firestorm_classes"@) {
        r matches SystemMessage::FirestormMessage { message_type, message } && message_type@
            == "Classes"@ && message@ == m
    } else if spec_contains(m, "BETA TESTERS"@) || spec_contains(m, "Beta Testers"@) {
        r matches SystemMessage::FirestormMessage { message_type, message } && message_type@
            == "Beta Test"@ && message@ == m
    } else {
        r matches SystemMessage::OtherSystemMessage { message } && message@ == m
    }
}

/// classify a system message that no more specific rule reads: holiday
/// wishes and other messages of the Firestorm team, phishing warnings, the
/// test message of the day, startup notices, or any other message
pub fn classify_system_message(m: &Vec<char>) -> (r: SystemMessage)
    ensures
        classified_as(m@, r),
{
    reveal(classified_as);
    let text = string_from_chars(m);
    if contains_exec(m, "Firestorm") && (contains_exec(m, "holiday") || contains_exec(
        m,
        "Happy New Year",
    )) {
        return SystemMessage::FirestormHolidayWishes { message: text };
    }
    if contains_exec(m, "phishing") {
        return SystemMessage::PhishingWarning { message: text };
    }
    if crate::chars::str_eq(
        text.as_str(),
        "This is a test version of Firestorm. If this were an actual release version, a real message of the day would be here. This is only a test.",
    ) {
        return SystemMessage::TestMessageOfTheDay;
    }
    let dots = crate::chars::str_to_chars("...");
    let ends = crate::chars::ends_with_chars(m, &dots);
    proof {
        if ends {
            assert(m@.subrange(m@.len() - dots@.len(), m@.len() as int) == dots@);
        }
    }
    let startup = (ends && (lit_at_exec(m, 0, "Loading") || lit_at_exec(m, 0, "Initializing")
        || lit_at_exec(m, 0, "Downloading") || lit_at_exec(m, 0, "Verifying") || lit_at_exec(
        m,
        0,
        "Connecting",
    ) || lit_at_exec(m, 0, "Decoding") || lit_at_exec(m, 0, "Waiting"))) || crate::chars::str_eq(
        text.as_str(),
        "Welcome to Advertisement-Free Firestorm",
    ) || lit_at_exec(m, 0, "Logging in");
    if startup {
        return SystemMessage::EarlyFirestormStartupMessage { message: text };
    }
    if contains_exec(m, "wiki.phoenixviewer.com/firestorm_classes") {
        return SystemMessage::FirestormMessage { message_type: "Classes".to_owned(), message: text };
    }
    if contains_exec(m, "BETA TESTERS") || contains_exec(m, "Beta Testers") {
        return SystemMessage::FirestormMessage { message_type: "Beta Test".to_owned(), message: text };
    }
    SystemMessage::OtherSystemMessage { message: text }
}


/// the URL scheme (`https`, `http` or `Http`, in that preference) that
/// starts at index `p`
pub open spec fn spec_scheme_at(s: Seq<char>, p: int) -> Option<Seq<char>> {
    if lit_at(s, p, "https"@) {
        Some("https"@)
    } else if lit_at(s, p, "http"@) {
        Some("http"@)
    } else if lit_at(s, p, "Http"@) {
        Some("Http"@)
    } else {
        None
    }
}

/// the first index at or after `i` where a URL scheme starts
pub open spec fn spec_first_scheme(s: Seq<char>, i: int) -> Option<int> {
    if exists|p: int| i <= p <= s.len() && spec_scheme_at(s, p) is Some {
        Some(
            choose|p: int|
                i <= p <= s.len() && spec_scheme_at(s, p) is Some && forall|k: int|
                    i <= k < p ==> spec_scheme_at(s, k) is None,
        )
    } else {
        None
    }
}

/// the first index at or after `i` where `www.` starts
pub open spec fn spec_first_www(s: Seq<char>, i: int) -> Option<int> {
    if exists|p: int| i <= p <= s.len() && lit_at(s, p, "www."@) {
        Some(
            choose|p: int|
                i <= p <= s.len() && lit_at(s, p, "www."@) && forall|k: int|
                    i <= k < p ==> !lit_at(s, k, "www."@),
        )
    } else {
        None
    }
}

/// `r` is what the system message from index `i` of `s` to its end reads
/// as when no fixed rule reads it: a message with a link when a URL scheme
/// or `www.` occurs (the text before it and the link up to the end of its
/// line), else the classification of the whole text
pub open spec fn system_fallback_is(s: Seq<char>, i: int, r: SystemMessage) -> bool {
    match spec_first_scheme(s, i) {
        Some(p) => {
            let scheme = spec_scheme_at(s, p).unwrap();
            let u = p + scheme.len();
            r matches SystemMessage::SystemMessageWithLink { message, link } && message@ == s.subrange(
                i,
                p,
            ) && link@ == scheme + "://"@ + s.subrange(u, spec_line_end(s, u))
        },
        None => match spec_first_www(s, i) {
            Some(p) => {
                let u = p + 4;
                r matches SystemMessage::SystemMessageWithLink { message, link } && message@
                    == s.subrange(i, p) && link@ == "www."@ + s.subrange(u, spec_line_end(s, u))
            },
            None => classified_as(s.subrange(i, s.len() as int), r),
        },
    }
}

/// the scheme starting at `p`, if any
fn scheme_at(s: &Vec<char>, p: usize) -> (r: Option<&'static str>)
    ensures
        match spec_scheme_at(s@, p as int) {
            None => r is None,
            Some(t) => r matches Some(x) && x@ == t,
        },
{
    if lit_at_exec(s, p, "https") {
        Some("https")
    } else if lit_at_exec(s, p, "http") {
        Some("http")
    } else if lit_at_exec(s, p, "Http") {
        Some("Http")
    } else {
        None
    }
}

/// the first index at or after `i` where a URL scheme starts
fn first_scheme(s: &Vec<char>, i: usize) -> (r: Option<usize>)
    requires
        i <= s@.len(),
    ensures
        opt_int(r) == spec_first_scheme(s@, i as int),
        r matches Some(p) ==> i <= p <= s@.len() && spec_scheme_at(s@, p as int) is Some,
{
    let mut p = i;
    while p <= s.len()
        invariant
            i <= p <= s@.len() + 1,
            forall|k: int| i <= k < p ==> spec_scheme_at(s@, k) is None,
        decreases s@.len() + 1 - p,
    {
        if scheme_at(s, p).is_some() {
            proof {
                let f = choose|x: int|
                    i <= x <= s@.len() && spec_scheme_at(s@, x) is Some && forall|k: int|
                        i <= k < x ==> spec_scheme_at(s@, k) is None;
                if f < p {
                    assert(spec_scheme_at(s@, f) is None);
                } else if f > p {
                    assert(spec_scheme_at(s@, p as int) is None);
                }
            }
            return Some(p);
        }
        if p == s.len() {
            proof {
                assert forall|x: int| i <= x <= s@.len() implies spec_scheme_at(s@, x) is None by {}
            }
            return None;
        }
        p = p + 1;
    }
    None
}

/// the first index at or after `i` where `www.` starts
fn first_www(s: &Vec<char>, i: usize) -> (r: Option<usize>)
    requires
        i <= s@.len(),
    ensures
        opt_int(r) == spec_first_www(s@, i as int),
        r matches Some(p) ==> i <= p && p + 4 <= s@.len(),
        r is None ==> spec_first_www(s@, i as int) is None,
{
    let mut p = i;
    proof {
        reveal_strlit("www.");
    }
    while p <= s.len()
        invariant
            i <= p <= s@.len() + 1,
            forall|k: int| i <= k < p ==> !lit_at(s@, k, "www."@),
        decreases s@.len() + 1 - p,
    {
        if lit_at_exec(s, p, "www.") {
            proof {
                reveal_strlit("www.");
                let f = choose|x: int|
                    i <= x <= s@.len() && lit_at(s@, x, "www."@) && forall|k: int|
                        i <= k < x ==> !lit_at(s@, k, "www."@);
                if f < p {
                    assert(!lit_at(s@, f, "www."@));
                } else if f > p {
                    assert(!lit_at(s@, p as int, "www."@));
                }
            }
            return Some(p);
        }
        if p == s.len() {
            proof {
                assert forall|x: int| i <= x <= s@.len() implies !lit_at(s@, x, "www."@) by {}
            }
            return None;
        }
        p = p + 1;
    }
    None
}

/// `prefix` followed by the characters of `s` from `u` to `e`
fn link_text(prefix: &str, s: &Vec<char>, u: usize, e: usize) -> (r: String)
    requires
        u <= e <= s@.len(),
    ensures
        r@ == prefix@ + s@.subrange(u as int, e as int),
{
    let mut link: Vec<char> = Vec::new();
    crate::chars::push_str_chars(&mut link, prefix);
    let mut k = u;
    while k < e
        invariant
            u <= k <= e <= s@.len(),
            link@ == prefix@ + s@.subrange(u as int, k as int),
        decreases e - k,
    {
        link.push(s[k]);
        proof {
            assert(s@.subrange(u as int, k as int + 1) =~= s@.subrange(u as int, k as int).push(
                s@[k as int],
            ));
        }
        k = k + 1;
    }
    string_from_chars(&link)
}

/// the message with a link whose scheme starts at index `p`
fn scheme_link_message(s: &Vec<char>, i: usize, p: usize) -> (r: SystemMessage)
    requires
        i <= p <= s@.len(),
        spec_scheme_at(s@, p as int) is Some,
    ensures
        ({
            let scheme = spec_scheme_at(s@, p as int).unwrap();
            let u = p + scheme.len();
            r matches SystemMessage::SystemMessageWithLink { message, link } && message@
                == s@.subrange(i as int, p as int) && link@ == scheme + "://"@ + s@.subrange(
                u,
                spec_line_end(s@, u),
            )
        }),
{
    let sl = s.len();
    proof {
        reveal_strlit("https");
        reveal_strlit("http");
        reveal_strlit("Http");
    }
    let scheme = match scheme_at(s, p) {
        Some(x) => x,
        None => "",
    };
    let sc = crate::chars::str_to_chars(scheme);
    let u = p + sc.len();
    let e = line_end(s, u);
    let mut prefix: Vec<char> = Vec::new();
    crate::chars::push_str_chars(&mut prefix, scheme);
    crate::chars::push_str_chars(&mut prefix, "://");
    let pre = string_from_chars(&prefix);
    let link = link_text(pre.as_str(), s, u, e);
    let message = string_from_chars(&crate::chars::slice_chars(s, i, p));
    SystemMessage::SystemMessageWithLink { message, link }
}

/// the message with a link starting with `www.` at index `p`
fn www_link_message(s: &Vec<char>, i: usize, p: usize) -> (r: SystemMessage)
    requires
        i <= p,
        p + 4 <= s@.len(),
    ensures
        r matches SystemMessage::SystemMessageWithLink { message, link } && message@ == s@.subrange(
            i as int,
            p as int,
        ) && link@ == "www."@ + s@.subrange(p + 4, spec_line_end(s@, p + 4)),
{
    let sl = s.len();
    let e = line_end(s, p + 4);
    let link = link_text("www.", s, p + 4, e);
    let message = string_from_chars(&crate::chars::slice_chars(s, i, p));
    SystemMessage::SystemMessageWithLink { message, link }
}

/// read the system message from index `i` of `s` to its end when no fixed
/// rule reads it (see [`system_fallback_is`])
#[verifier::rlimit(30)]
pub fn system_message_fallback_at(s: &Vec<char>, i: usize) -> (r: SystemMessage)
    requires
        i <= s@.len(),
    ensures
        system_fallback_is(s@, i as int, r),
{
    match first_scheme(s, i) {
        Some(p) => scheme_link_message(s, i, p),
        None => match first_www(s, i) {
            Some(p) => www_link_message(s, i, p),
            None => {
                let rest = crate::chars::slice_chars(s, i, s.len());
                classify_system_message(&rest)
            },
        },
    }
}


/// `m` is what the rules from the first on (in the order the log format tries them)
/// read at index `i`; a message none of them reads is classified by
/// [`system_fallback_is`]
pub open spec fn chain_a_is(s: Seq<char>, i: int, m: SystemMessage) -> bool {
    if crate::message_rules::snapshot_saved_matches(s, i) {
        crate::message_rules::snapshot_saved_is(s, i, m)
    } else if spec_literal_first(s, i, 0, 1) is Some {
        literal_is(s, i, 0, 1, m)
    } else if crate::message_rules::draw_distance_set_matches(s, i) {
        crate::message_rules::draw_distance_set_is(s, i, m)
    } else if spec_literal_first(s, i, 1, 3) is Some {
        literal_is(s, i, 1, 3, m)
    } else if crate::message_rules::failed_to_join_land_matches(s, i) {
        m is FailedToJoinLandDueToRegionBoundary
    } else if crate::message_rules::offered_calling_card_matches(s, i) {
        crate::message_rules::offered_calling_card_is(s, i, m)
    } else if crate::message_rules::you_paid_for_object_matches(s, i) {
        crate::message_rules::you_paid_for_object_is(s, i, m)
    } else if crate::message_rules::you_paid_to_create_a_group_matches(s, i) {
        crate::message_rules::you_paid_to_create_a_group_is(s, i, m)
    } else if crate::message_rules::you_paid_to_join_group_matches(s, i) {
        crate::message_rules::you_paid_to_join_group_is(s, i, m)
    } else if crate::message_rules::you_paid_for_land_matches(s, i) {
        crate::message_rules::you_paid_for_land_is(s, i, m)
    } else if crate::message_rules::failed_to_pay_matches(s, i) {
        crate::message_rules::failed_to_pay_is(s, i, m)
    } else if crate::message_rules::object_granted_permission_to_take_money_matches(s, i) {
        crate::message_rules::object_granted_permission_to_take_money_is(s, i, m)
    } else if crate::message_rules::sent_payment_matches(s, i) {
        crate::message_rules::sent_payment_is(s, i, m)
    } else if crate::message_rules::received_payment_matches(s, i) {
        crate::message_rules::received_payment_is(s, i, m)
    } else {
        chain_b_is(s, i, m)
    }
}

/// the message the rules from the first on read at `i`
#[verifier::rlimit(40)]
fn chain_a_at(s: &Vec<char>, i: usize) -> (r: SystemMessage)
    requires
        i <= s@.len(),
    ensures
        chain_a_is(s@, i as int, r),
{
    if let Some(m) = crate::message_rules::snapshot_saved_message_parser(s, i) {
        return m;
    }
    if let Some(m) = literal_range_at(s, i, 0, 1) {
        return m;
    }
    if let Some(m) = crate::message_rules::draw_distance_set_message_parser(s, i) {
        return m;
    }
    if let Some(m) = literal_range_at(s, i, 1, 3) {
        return m;
    }
    if let Some(m) = crate::message_rules::failed_to_join_land_due_to_region_boundary_message_parser(s, i) {
        return m;
    }
    if let Some(m) = crate::message_rules::offered_calling_card_message_parser(s, i) {
        return m;
    }
    if let Some(m) = crate::message_rules::you_paid_for_object_message_parser(s, i) {
        return m;
    }
    if let Some(m) = crate::message_rules::you_paid_to_create_a_group_message_parser(s, i) {
        return m;
    }
    if let Some(m) = crate::message_rules::you_paid_to_join_group_message_parser(s, i) {
        return m;
    }
    if let Some(m) = crate::message_rules::you_paid_for_land_message_parser(s, i) {
        return m;
    }
    if let Some(m) = crate::message_rules::failed_to_pay_message_parser(s, i) {
        return m;
    }
    if let Some(m) = crate::message_rules::object_granted_permission_to_take_money_parser(s, i) {
        return m;
    }
    if let Some(m) = crate::message_rules::sent_payment_message_parser(s, i) {
        return m;
    }
    if let Some(m) = crate::message_rules::received_payment_message_parser(s, i) {
        return m;
    }
    chain_b_at(s, i)
}

/// `m` is what the rules from the fifteenth on (in the order the log format tries them)
/// read at index `i`; a message none of them reads is classified by
/// [`system_fallback_is`]
pub open spec fn chain_b_is(s: Seq<char>, i: int, m: SystemMessage) -> bool {
    if crate::message_rules::group_membership_matches(s, i) {
        crate::message_rules::group_membership_is(s, i, m)
    } else if spec_literal_first(s, i, 4, 5) is Some {
        literal_is(s, i, 4, 5, m)
    } else if crate::message_rules::differing_limited_estate_matches(s, i) {
        m is UnableToInviteUserToGroupDueToDifferingLimitedEstate
    } else if crate::message_rules::unable_to_load_notecard_matches(s, i) {
        m is UnableToLoadNotecard
    } else if crate::message_rules::unable_to_load_gesture_matches(s, i) {
        crate::message_rules::unable_to_load_gesture_is(s, i, m)
    } else if crate::message_rules::teleport_completed_matches(s, i) {
        crate::message_rules::teleport_completed_is(s, i, m)
    } else if crate::message_rules::now_playing_matches(s, i) {
        crate::message_rules::now_playing_is(s, i, m)
    } else if spec_literal_first(s, i, 5, 6) is Some {
        literal_is(s, i, 5, 6, m)
    } else if crate::message_rules::object_gave_object_matches(s, i) {
        crate::message_rules::object_gave_object_is(s, i, m)
    } else if crate::message_rules::object_gave_folder_matches(s, i) {
        crate::message_rules::object_gave_folder_is(s, i, m)
    } else if crate::message_rules::declined_given_object_matches(s, i) {
        crate::message_rules::declined_given_object_is(s, i, m)
    } else if spec_literal_first(s, i, 6, 8) is Some {
        literal_is(s, i, 6, 8, m)
    } else if crate::message_rules::modified_search_query_matches(s, i) {
        crate::message_rules::modified_search_query_is(s, i, m)
    } else if crate::message_rules::avatar_gave_object_matches(s, i) {
        crate::message_rules::avatar_gave_object_is(s, i, m)
    } else {
        chain_c_is(s, i, m)
    }
}

/// the message the rules from the fifteenth on read at `i`
#[verifier::rlimit(40)]
fn chain_b_at(s: &Vec<char>, i: usize) -> (r: SystemMessage)
    requires
        i <= s@.len(),
    ensures
        chain_b_is(s@, i as int, r),
{
    if let Some(m) = crate::message_rules::group_membership_message_parser(s, i) {
        return m;
    }
    if let Some(m) = literal_range_at(s, i, 4, 5) {
        return m;
    }
    if let Some(m) = crate::message_rules::unable_to_invite_user_due_to_differing_limited_estate_message_parser(s, i) {
        return m;
    }
    if let Some(m) = crate::message_rules::unable_to_load_notecard_message_parser(s, i) {
        return m;
    }
    if let Some(m) = crate::message_rules::unable_to_load_gesture_message_parser(s, i) {
        return m;
    }
    if let Some(m) = crate::message_rules::teleport_completed_message_parser(s, i) {
        return m;
    }
    if let Some(m) = crate::message_rules::now_playing_message_parser(s, i) {
        return m;
    }
    if let Some(m) = literal_range_at(s, i, 5, 6) {
        return m;
    }
    if let Some(m) = crate::message_rules::object_gave_object_message_parser(s, i) {
        return m;
    }
    if let Some(m) = crate::message_rules::object_gave_folder_message_parser(s, i) {
        return m;
    }
    if let Some(m) = crate::message_rules::declined_given_object_message_parser(s, i) {
        return m;
    }
    if let Some(m) = literal_range_at(s, i, 6, 8) {
        return m;
    }
    if let Some(m) = crate::message_rules::modified_search_query_message_parser(s, i) {
        return m;
    }
    if let Some(m) = crate::message_rules::avatar_gave_object_message_parser(s, i) {
        return m;
    }
    chain_c_at(s, i)
}

/// `m` is what the rules from the twenty-ninth on (in the order the log format tries them)
/// read at index `i`; a message none of them reads is classified by
/// [`system_fallback_is`]
pub open spec fn chain_c_is(s: Seq<char>, i: int, m: SystemMessage) -> bool {
    if crate::message_rules::simulator_version_matches(s, i) {
        crate::message_rules::simulator_version_is(s, i, m)
    } else if crate::message_rules::renamed_avatar_matches(s, i) {
        crate::message_rules::renamed_avatar_is(s, i, m)
    } else if spec_literal_first(s, i, 8, 24) is Some {
        literal_is(s, i, 8, 24, m)
    } else if crate::message_rules::region_script_count_change_matches(s, i) {
        crate::message_rules::region_script_count_change_is(s, i, m)
    } else if crate::message_rules::chat_message_still_being_processed_matches(s, i) {
        crate::message_rules::chat_message_still_being_processed_is(s, i, m)
    } else if crate::message_rules::avatar_declined_voice_call_matches(s, i) {
        crate::message_rules::avatar_declined_voice_call_is(s, i, m)
    } else if crate::message_rules::avatar_unavailable_for_voice_call_matches(s, i) {
        crate::message_rules::avatar_unavailable_for_voice_call_is(s, i, m)
    } else if crate::message_rules::audio_from_domain_matches(s, i) {
        crate::message_rules::audio_from_domain_is(s, i, m)
    } else if spec_literal_first(s, i, 24, 26) is Some {
        literal_is(s, i, 24, 26, m)
    } else if crate::message_rules::link_failed_matches(s, i) {
        crate::message_rules::link_failed_is(s, i, m)
    } else if crate::message_rules::rezzing_object_failed_matches(s, i) {
        crate::message_rules::rezzing_object_failed_is(s, i, m)
    } else if spec_literal_first(s, i, 27, 28) is Some {
        literal_is(s, i, 27, 28, m)
    } else if crate::message_rules::your_object_has_been_returned_matches(s, i) {
        crate::message_rules::your_object_has_been_returned_is(s, i, m)
    } else if spec_literal_first(s, i, 28, 29) is Some {
        literal_is(s, i, 28, 29, m)
    } else {
        chain_d_is(s, i, m)
    }
}

/// the message the rules from the twenty-ninth on read at `i`
#[verifier::rlimit(40)]
fn chain_c_at(s: &Vec<char>, i: usize) -> (r: SystemMessage)
    requires
        i <= s@.len(),
    ensures
        chain_c_is(s@, i as int, r),
{
    if let Some(m) = crate::message_rules::simulator_version_message_parser(s, i) {
        return m;
    }
    if let Some(m) = crate::message_rules::renamed_avatar_message_parser(s, i) {
        return m;
    }
    if let Some(m) = literal_range_at(s, i, 8, 24) {
        return m;
    }
    if let Some(m) = crate::message_rules::region_script_count_change_message_parser(s, i) {
        return m;
    }
    if let Some(m) = crate::message_rules::chat_message_still_being_processed_message_parser(s, i) {
        return m;
    }
    if let Some(m) = crate::message_rules::avatar_declined_voice_call_message_parser(s, i) {
        return m;
    }
    if let Some(m) = crate::message_rules::avatar_unavailable_for_voice_call_message_parser(s, i) {
        return m;
    }
    if let Some(m) = crate::message_rules::audio_from_domain_will_always_be_played_message_parser(s, i) {
        return m;
    }
    if let Some(m) = literal_range_at(s, i, 24, 26) {
        return m;
    }
    if let Some(m) = crate::message_rules::link_failed_due_to_piece_distance_message_parser(s, i) {
        return m;
    }
    if let Some(m) = crate::message_rules::rezzing_object_failed_due_to_full_parcel_message_parser(s, i) {
        return m;
    }
    if let Some(m) = literal_range_at(s, i, 27, 28) {
        return m;
    }
    if let Some(m) = crate::message_rules::your_object_has_been_returned_message_parser(s, i) {
        return m;
    }
    if let Some(m) = literal_range_at(s, i, 28, 29) {
        return m;
    }
    chain_d_at(s, i)
}

/// `m` is what the rules from the forty-third on (in the order the log format tries them)
/// read at index `i`; a message none of them reads is classified by
/// [`system_fallback_is`]
pub open spec fn chain_d_is(s: Seq<char>, i: int, m: SystemMessage) -> bool {
    if crate::message_rules::permission_to_rez_object_denied_matches(s, i) {
        crate::message_rules::permission_to_rez_object_denied_is(s, i, m)
    } else if spec_literal_first(s, i, 29, 41) is Some {
        literal_is(s, i, 29, 41, m)
    } else if crate::message_rules::banned_from_parcel_matches(s, i) {
        crate::message_rules::banned_from_parcel_is(s, i, m)
    } else if spec_literal_first(s, i, 42, 49) is Some {
        literal_is(s, i, 42, 49, m)
    } else if crate::message_rules::script_info_matches(s, i) {
        crate::message_rules::script_info_is(s, i, m)
    } else if crate::extended_info::extended_script_info_matches(s, i) {
        crate::extended_info::extended_script_info_is(s, i, m)
    } else if crate::message_rules::dice_roll_matches(s, i) {
        crate::message_rules::dice_roll_is(s, i, m)
    } else if crate::message_rules::texture_info_matches(s, i) {
        crate::message_rules::texture_info_is(s, i, m)
    } else if crate::message_rules::firestorm_matches(s, i) {
        crate::message_rules::firestorm_is(s, i, m)
    } else if crate::message_rules::grid_status_event_matches(s, i) {
        crate::message_rules::grid_status_event_is(s, i, m)
    } else {
        system_fallback_is(s, i, m)
    }
}

/// the message the rules from the forty-third on read at `i`
#[verifier::rlimit(40)]
fn chain_d_at(s: &Vec<char>, i: usize) -> (r: SystemMessage)
    requires
        i <= s@.len(),
    ensures
        chain_d_is(s@, i as int, r),
{
    if let Some(m) = crate::message_rules::permission_to_rez_object_denied_message_parser(s, i) {
        return m;
    }
    if let Some(m) = literal_range_at(s, i, 29, 41) {
        return m;
    }
    if let Some(m) = crate::message_rules::banned_from_parcel_message_parser(s, i) {
        return m;
    }
    if let Some(m) = literal_range_at(s, i, 42, 49) {
        return m;
    }
    if let Some(m) = crate::message_rules::script_info_message_parser(s, i) {
        return m;
    }
    if let Some(m) = crate::extended_info::extended_script_info_message_parser(s, i) {
        return m;
    }
    if let Some(m) = crate::message_rules::dice_roll_message_parser(s, i) {
        return m;
    }
    if let Some(m) = crate::message_rules::texture_info_message_parser(s, i) {
        return m;
    }
    if let Some(m) = crate::message_rules::firestorm_message_parser(s, i) {
        return m;
    }
    if let Some(m) = crate::message_rules::grid_status_event_message_parser(s, i) {
        return m;
    }
    system_message_fallback_at(s, i)
}

/// `m` is the system message read from index `i` of `s` to its end: the
/// message of the first rule that reads one, else the classification of
/// the text
pub open spec fn system_message_is(s: Seq<char>, i: int, m: SystemMessage) -> bool {
    chain_a_is(s, i, m)
}

/// read the system message from index `i` of `s` to its end
pub fn system_message_at(s: &Vec<char>, i: usize) -> (r: SystemMessage)
    requires
        i <= s@.len(),
    ensures
        system_message_is(s@, i as int, r),
{
    chain_a_at(s, i)
}

/// the system message that the whole of `text` is
pub fn system_message_parser(text: &str) -> (r: SystemMessage)
    ensures
        system_message_is(text@, 0, r),
{
    let s = crate::chars::str_to_chars(text);
    system_message_at(&s, 0)
}

} // verus!
