//! Names of the Android framework attributes, by resource id.

use vstd::prelude::*;

verus! {

/// The name of the framework attribute with resource id `res_id`.
pub open spec fn attribute_name_of(res_id: u32) -> Option<Seq<char>> {
    match res_id {
        0x01010000u32 => Some("theme"@),
        0x01010001u32 => Some("label"@),
        0x01010002u32 => Some("icon"@),
        0x01010003u32 => Some("name"@),
        0x01010004u32 => Some("manageSpaceActivity"@),
        0x01010005u32 => Some("allowClearUserData"@),
        0x01010006u32 => Some("permission"@),
        0x01010007u32 => Some("readPermission"@),
        0x01010008u32 => Some("writePermission"@),
        0x01010009u32 => Some("protectionLevel"@),
        0x0101000au32 => Some("permissionGroup"@),
        0x0101000bu32 => Some("sharedUserId"@),
        0x0101000cu32 => Some("hasCode"@),
        0x0101000du32 => Some("persistent"@),
        0x0101000eu32 => Some("enabled"@),
        0x0101000fu32 => Some("debuggable"@),
        0x01010010u32 => Some("exported"@),
        0x01010011u32 => Some("process"@),
        0x01010012u32 => Some("taskAffinity"@),
        0x01010013u32 => Some("multiprocess"@),
        0x01010014u32 => Some("finishOnTaskLaunch"@),
        0x01010015u32 => Some("clearTaskOnLaunch"@),
        0x01010016u32 => Some("stateNotNeeded"@),
        0x01010017u32 => Some("excludeFromRecents"@),
        0x01010018u32 => Some("authorities"@),
        0x01010019u32 => Some("syncable"@),
        0x0101001au32 => Some("initOrder"@),
        0x0101001bu32 => Some("grantUriPermissions"@),
        0x0101001cu32 => Some("priority"@),
        0x0101001du32 => Some("launchMode"@),
        0x0101001eu32 => Some("screenOrientation"@),
        0x0101001fu32 => Some("configChanges"@),
        0x01010020u32 => Some("description"@),
        0x01010021u32 => Some("targetPackage"@),
        0x01010022u32 => Some("handleProfiling"@),
        0x01010023u32 => Some("functionalTest"@),
        0x01010024u32 => Some("value"@),
        0x01010025u32 => Some("resource"@),
        0x01010026u32 => Some("mimeType"@),
        0x01010027u32 => Some("scheme"@),
        0x01010028u32 => Some("host"@),
        0x01010029u32 => Some("port"@),
        0x0101002au32 => Some("path"@),
        0x0101002bu32 => Some("pathPrefix"@),
        0x0101002cu32 => Some("pathPattern"@),
        0x0101002du32 => Some("action"@),
        0x0101002eu32 => Some("data"@),
        0x0101002fu32 => Some("targetClass"@),
        0x010100d0u32 => Some("id"@),
        0x0101020cu32 => Some("minSdkVersion"@),
        0x0101021bu32 => Some("versionCode"@),
        0x0101021cu32 => Some("versionName"@),
        0x01010270u32 => Some("targetSdkVersion"@),
        0x01010271u32 => Some("maxSdkVersion"@),
        0x01010280u32 => Some("allowBackup"@),
        0x010102b7u32 => Some("installLocation"@),
        0x01010572u32 => Some("compileSdkVersion"@),
        0x01010573u32 => Some("compileSdkVersionCodename"@),
        0x0101052cu32 => Some("roundIcon"@),
        0x010103afu32 => Some("supportsRtl"@),
        0x010104ecu32 => Some("usesCleartextTraffic"@),
        0x0101035au32 => Some("largeHeap"@),
        0x010102d3u32 => Some("hardwareAccelerated"@),
        0x0101028eu32 => Some("required"@),
        0x01010281u32 => Some("glEsVersion"@),
        0x010104eau32 => Some("extractNativeLibs"@),
        0x010104ebu32 => Some("fullBackupContent"@),
        0x01010527u32 => Some("networkSecurityConfig"@),
        0x010104f6u32 => Some("resizeableActivity"@),
        0x01010505u32 => Some("directBootAware"@),
        0x010103f2u32 => Some("banner"@),
        0x010102beu32 => Some("logo"@),
        0x01010272u32 => Some("testOnly"@),
        0x0101022bu32 => Some("windowSoftInputMode"@),
        0x0101022du32 => Some("noHistory"@),
        0x010103a7u32 => Some("parentActivityName"@),
        0x01010202u32 => Some("targetActivity"@),
        0x0101027fu32 => Some("backupAgent"@),
        0x0101057au32 => Some("appComponentFactory"@),
        0x01010599u32 => Some("foregroundServiceType"@),
        0x01010603u32 => Some("requestLegacyExternalStorage"@),
        0x010103a9u32 => Some("isolatedProcess"@),
        0x01010203u32 => Some("alwaysRetainTaskState"@),
        0x01010398u32 => Some("uiOptions"@),
        0x0101026cu32 => Some("anyDensity"@),
        0x01010284u32 => Some("smallScreens"@),
        0x01010285u32 => Some("normalScreens"@),
        0x01010286u32 => Some("largeScreens"@),
        0x010102bfu32 => Some("xlargeScreens"@),
        0x0101028du32 => Some("resizeable"@),
        0x010104eeu32 => Some("autoVerify"@),
        0x01010473u32 => Some("fullBackupOnly"@),
        0x01010445u32 => Some("documentLaunchMode"@),
        0x010102b8u32 => Some("vmSafeMode"@),
        0x010102bau32 => Some("restoreAnyVersion"@),
        0x01010227u32 => Some("reqTouchScreen"@),
        0x01010228u32 => Some("reqKeyboardType"@),
        0x01010229u32 => Some("reqHardKeyboard"@),
        0x0101022au32 => Some("reqNavigation"@),
        0x01010232u32 => Some("reqFiveWayNav"@),
        _ => None,
    }
}

fn attribute_str(res_id: u32) -> (r: Option<&'static str>)
    ensures
        match r {
            Some(s) => attribute_name_of(res_id) == Some(s@),
            None => attribute_name_of(res_id) is None,
        },
{
    match res_id {
        0x01010000u32 => Some("theme"),
        0x01010001u32 => Some("label"),
        0x01010002u32 => Some("icon"),
        0x01010003u32 => Some("name"),
        0x01010004u32 => Some("manageSpaceActivity"),
        0x01010005u32 => Some("allowClearUserData"),
        0x01010006u32 => Some("permission"),
        0x01010007u32 => Some("readPermission"),
        0x01010008u32 => Some("writePermission"),
        0x01010009u32 => Some("protectionLevel"),
        0x0101000au32 => Some("permissionGroup"),
        0x0101000bu32 => Some("sharedUserId"),
        0x0101000cu32 => Some("hasCode"),
        0x0101000du32 => Some("persistent"),
        0x0101000eu32 => Some("enabled"),
        0x0101000fu32 => Some("debuggable"),
        0x01010010u32 => Some("exported"),
        0x01010011u32 => Some("process"),
        0x01010012u32 => Some("taskAffinity"),
        0x01010013u32 => Some("multiprocess"),
        0x01010014u32 => Some("finishOnTaskLaunch"),
        0x01010015u32 => Some("clearTaskOnLaunch"),
        0x01010016u32 => Some("stateNotNeeded"),
        0x01010017u32 => Some("excludeFromRecents"),
        0x01010018u32 => Some("authorities"),
        0x01010019u32 => Some("syncable"),
        0x0101001au32 => Some("initOrder"),
        0x0101001bu32 => Some("grantUriPermissions"),
        0x0101001cu32 => Some("priority"),
        0x0101001du32 => Some("launchMode"),
        0x0101001eu32 => Some("screenOrientation"),
        0x0101001fu32 => Some("configChanges"),
        0x01010020u32 => Some("description"),
        0x01010021u32 => Some("targetPackage"),
        0x01010022u32 => Some("handleProfiling"),
        0x01010023u32 => Some("functionalTest"),
        0x01010024u32 => Some("value"),
        0x01010025u32 => Some("resource"),
        0x01010026u32 => Some("mimeType"),
        0x01010027u32 => Some("scheme"),
        0x01010028u32 => Some("host"),
        0x01010029u32 => Some("port"),
        0x0101002au32 => Some("path"),
        0x0101002bu32 => Some("pathPrefix"),
        0x0101002cu32 => Some("pathPattern"),
        0x0101002du32 => Some("action"),
        0x0101002eu32 => Some("data"),
        0x0101002fu32 => Some("targetClass"),
        0x010100d0u32 => Some("id"),
        0x0101020cu32 => Some("minSdkVersion"),
        0x0101021bu32 => Some("versionCode"),
        0x0101021cu32 => Some("versionName"),
        0x01010270u32 => Some("targetSdkVersion"),
        0x01010271u32 => Some("maxSdkVersion"),
        0x01010280u32 => Some("allowBackup"),
        0x010102b7u32 => Some("installLocation"),
        0x01010572u32 => Some("compileSdkVersion"),
        0x01010573u32 => Some("compileSdkVersionCodename"),
        0x0101052cu32 => Some("roundIcon"),
        0x010103afu32 => Some("supportsRtl"),
        0x010104ecu32 => Some("usesCleartextTraffic"),
        0x0101035au32 => Some("largeHeap"),
        0x010102d3u32 => Some("hardwareAccelerated"),
        0x0101028eu32 => Some("required"),
        0x01010281u32 => Some("glEsVersion"),
        0x010104eau32 => Some("extractNativeLibs"),
        0x010104ebu32 => Some("fullBackupContent"),
        0x01010527u32 => Some("networkSecurityConfig"),
        0x010104f6u32 => Some("resizeableActivity"),
        0x01010505u32 => Some("directBootAware"),
        0x010103f2u32 => Some("banner"),
        0x010102beu32 => Some("logo"),
        0x01010272u32 => Some("testOnly"),
        0x0101022bu32 => Some("windowSoftInputMode"),
        0x0101022du32 => Some("noHistory"),
        0x010103a7u32 => Some("parentActivityName"),
        0x01010202u32 => Some("targetActivity"),
        0x0101027fu32 => Some("backupAgent"),
        0x0101057au32 => Some("appComponentFactory"),
        0x01010599u32 => Some("foregroundServiceType"),
        0x01010603u32 => Some("requestLegacyExternalStorage"),
        0x010103a9u32 => Some("isolatedProcess"),
        0x01010203u32 => Some("alwaysRetainTaskState"),
        0x01010398u32 => Some("uiOptions"),
        0x0101026cu32 => Some("anyDensity"),
        0x01010284u32 => Some("smallScreens"),
        0x01010285u32 => Some("normalScreens"),
        0x01010286u32 => Some("largeScreens"),
        0x010102bfu32 => Some("xlargeScreens"),
        0x0101028du32 => Some("resizeable"),
        0x010104eeu32 => Some("autoVerify"),
        0x01010473u32 => Some("fullBackupOnly"),
        0x01010445u32 => Some("documentLaunchMode"),
        0x010102b8u32 => Some("vmSafeMode"),
        0x010102bau32 => Some("restoreAnyVersion"),
        0x01010227u32 => Some("reqTouchScreen"),
        0x01010228u32 => Some("reqKeyboardType"),
        0x01010229u32 => Some("reqHardKeyboard"),
        0x0101022au32 => Some("reqNavigation"),
        0x01010232u32 => Some("reqFiveWayNav"),
        _ => None,
    }
}

/// The name of the framework attribute with resource id `res_id`.
pub fn get_attribute_name(res_id: u32) -> (r: Option<String>)
    ensures
        r.deep_view() == attribute_name_of(res_id),
{
    match attribute_str(res_id) {
        Some(s) => Some(s.to_owned()),
        None => None,
    }
}

} // verus!
